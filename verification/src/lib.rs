//! Verified index logic of a two-dimensional finite-element heat-conduction solver:
//! mesh connectivity, assembly of element contributions into the global
//! stiffness matrix, application of prescribed nodal temperatures, extraction
//! of the sparse storage pattern and selection of extreme values.
//!
//! The floating-point arithmetic itself (element matrices, the linear solve,
//! colour interpolation) is done by the caller on top of the plans computed here.

pub mod cli;
pub mod mesh;
pub mod assembly;
pub mod loads;
pub mod sparse;
pub mod extrema;
