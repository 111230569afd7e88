use thermo_fem::cli::{choose_solver, Decomposition, ImageFormat, SolverChoice};

#[test]
fn dense_solver_when_sparse_is_off() {
    assert_eq!(choose_solver(true, Decomposition::Mumps), SolverChoice::DenseLu);
}

#[test]
fn sparse_solver_keeps_factorization() {
    assert_eq!(
        choose_solver(false, Decomposition::Umfpack),
        SolverChoice::Sparse(Decomposition::Umfpack)
    );
    assert_eq!(choose_solver(false, Decomposition::Klu), SolverChoice::Sparse(Decomposition::Klu));
}

#[test]
fn image_export_size() {
    assert_eq!(ImageFormat::NoImage.export_size(), None);
    for f in [ImageFormat::SVG, ImageFormat::PNG, ImageFormat::WEBP, ImageFormat::JPEG] {
        assert_eq!(f.export_size(), Some((1000, 750)));
    }
}
