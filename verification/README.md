# thermo_fem

A two-dimensional finite-element heat-conduction solver for meshes exported
from ANSYS APDL listings (`NLIST`, `ELIST`, `DLIST`, `PRNSOL`), with its
index logic verified in Verus.

- `src/` — the verified library: mesh connectivity checks and lookups
  (`mesh`), the scatter plan that assembles element matrices into the global
  stiffness matrix (`assembly`), which rows prescribed temperatures pin
  (`loads`), the coordinate pattern handed to the sparse solver (`sparse`),
  extreme-value selection (`extrema`) and run options (`cli`).
- `app/` — the program: reading the listings, the floating-point element
  matrices, the dense and sparse linear solves, and the plots.
- `tests/` — tests of the library.
