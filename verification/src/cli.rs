//! Run options of the solver: image export format, log level and the
//! factorization used by the sparse linear solver.

use vstd::prelude::*;

verus! {

/// Format of the exported result image.
#[allow(clippy::upper_case_acronyms)]
#[derive(Clone, Copy, Debug, PartialEq, Eq, Structural)]
pub enum ImageFormat {
    /// No image is exported.
    NoImage,
    SVG,
    PNG,
    WEBP,
    JPEG,
}

/// Logging verbosity.
#[derive(Clone, Copy, Debug, PartialEq, Eq, Structural)]
pub enum LogLvl {
    Info,
    Debug,
    Warn,
}

/// Matrix factorization used by the sparse linear solver.
#[derive(Clone, Copy, Debug, PartialEq, Eq, Structural)]
pub enum Decomposition {
    Klu,
    Umfpack,
    Mumps,
}

/// How the assembled linear system is solved.
#[derive(Clone, Copy, Debug, PartialEq, Eq, Structural)]
pub enum SolverChoice {
    /// Dense LU factorization of the full matrix.
    DenseLu,
    /// Sparse solver on the non-zero entries, with the given factorization.
    Sparse(Decomposition),
}

/// Dense LU when the sparse path is switched off, otherwise the sparse solver
/// with the requested factorization.
pub fn choose_solver(not_sparse: bool, decomposition: Decomposition) -> (choice: SolverChoice)
    ensures
        choice == (if not_sparse {
            SolverChoice::DenseLu
        } else {
            SolverChoice::Sparse(decomposition)
        }),
{
    if not_sparse {
        SolverChoice::DenseLu
    } else {
        SolverChoice::Sparse(decomposition)
    }
}

impl ImageFormat {
    /// Width and height in pixels of the exported image, or `None` when no image is exported.
    pub fn export_size(&self) -> (size: Option<(usize, usize)>)
        ensures
            size == (if *self == ImageFormat::NoImage {
                None::<(usize, usize)>
            } else {
                Some((1000usize, 750usize))
            }),
    {
        match self {
            ImageFormat::NoImage => None,
            _ => Some((1000, 750)),
        }
    }
}

} // verus!
