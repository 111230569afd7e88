use thermo_fem::loads::{check_loads, pinned_rows, Load};
use thermo_fem::mesh::MeshError;

fn at(node: usize) -> Load {
    Load { node }
}

#[test]
fn unloaded_rows_stay_free() {
    assert_eq!(pinned_rows(&Vec::new(), 3), vec![None, None, None]);
}

#[test]
fn each_loaded_row_points_at_its_load() {
    assert_eq!(pinned_rows(&vec![at(3), at(1)], 4), vec![Some(1), None, Some(0), None]);
}

#[test]
fn last_load_on_a_node_wins() {
    let loads = vec![at(2), at(1), at(2)];
    assert_eq!(pinned_rows(&loads, 3), vec![Some(1), Some(2), None]);
    let mut more = loads.clone();
    more.push(at(1));
    assert_eq!(pinned_rows(&more, 3), vec![Some(3), Some(2), None]);
}

#[test]
fn check_loads_accepts_valid_nodes() {
    assert_eq!(check_loads(&vec![at(1), at(3)], 3), Ok(()));
}

#[test]
fn check_loads_reports_first_bad_load() {
    assert_eq!(
        check_loads(&vec![at(1), at(0), at(7)], 3),
        Err(MeshError::LoadOutOfRange { load: 1, node: 0 })
    );
    assert_eq!(
        check_loads(&vec![at(4)], 3),
        Err(MeshError::LoadOutOfRange { load: 0, node: 4 })
    );
}
