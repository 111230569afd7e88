use thermo_fem::mesh::{
    check_mesh, check_value_map, mesh_dofs, triangle_value_indices, Element, MeshError,
};

fn tri(i: usize, j: usize, k: usize) -> Element {
    Element { node_i: i, node_j: j, node_k: k }
}

#[test]
fn dofs_are_zero_based_corner_positions() {
    assert_eq!(tri(1, 2, 3).dofs(3), [0, 1, 2]);
    assert_eq!(tri(4, 1, 3).dofs(4), [3, 0, 2]);
}

#[test]
fn check_mesh_accepts_valid_mesh() {
    let mesh = vec![tri(1, 2, 3), tri(2, 4, 3)];
    assert_eq!(check_mesh(&mesh, 4), Ok(()));
    assert_eq!(check_mesh(&Vec::new(), 0), Ok(()));
}

#[test]
fn check_mesh_reports_node_zero() {
    let mesh = vec![tri(1, 2, 3), tri(2, 0, 3)];
    assert_eq!(
        check_mesh(&mesh, 4),
        Err(MeshError::NodeOutOfRange { element: 1, node: 0 })
    );
}

#[test]
fn check_mesh_reports_first_bad_element_and_corner() {
    let mesh = vec![tri(1, 2, 3), tri(9, 7, 3), tri(5, 1, 1)];
    assert_eq!(
        check_mesh(&mesh, 4),
        Err(MeshError::NodeOutOfRange { element: 1, node: 9 })
    );
    let mesh = vec![tri(1, 2, 5)];
    assert_eq!(
        check_mesh(&mesh, 4),
        Err(MeshError::NodeOutOfRange { element: 0, node: 5 })
    );
}

#[test]
fn mesh_dofs_lists_every_element() {
    let mesh = vec![tri(1, 2, 3), tri(3, 4, 1)];
    assert_eq!(mesh_dofs(&mesh, 4), vec![[0, 1, 2], [2, 3, 0]]);
}

#[test]
fn value_indices_follow_node_record_numbers() {
    // node record at position p carries number node_numbers[p]
    let mesh = vec![tri(1, 2, 3), tri(3, 2, 1)];
    let node_numbers = vec![3, 1, 2];
    assert_eq!(check_value_map(&mesh, &node_numbers, 3), Ok(()));
    assert_eq!(
        triangle_value_indices(&mesh, &node_numbers, 3),
        vec![[2, 0, 1], [1, 0, 2]]
    );
}

#[test]
fn value_map_rejects_number_beyond_values() {
    let mesh = vec![tri(1, 2, 3)];
    let node_numbers = vec![1, 5, 2];
    assert_eq!(
        check_value_map(&mesh, &node_numbers, 3),
        Err(MeshError::ValueOutOfRange { element: 0, node: 5 })
    );
    // a shorter value vector (as in a difference of two fields)
    let node_numbers = vec![1, 2, 3];
    assert_eq!(
        check_value_map(&mesh, &node_numbers, 2),
        Err(MeshError::ValueOutOfRange { element: 0, node: 3 })
    );
}

#[test]
fn value_map_rejects_number_zero() {
    let mesh = vec![tri(1, 2, 3)];
    let node_numbers = vec![1, 2, 0];
    assert_eq!(
        check_value_map(&mesh, &node_numbers, 3),
        Err(MeshError::ValueOutOfRange { element: 0, node: 0 })
    );
}
