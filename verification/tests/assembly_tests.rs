use thermo_fem::assembly::{assembly_plan, Contribution};
use thermo_fem::mesh::Element;

fn tri(i: usize, j: usize, k: usize) -> Element {
    Element { node_i: i, node_j: j, node_k: k }
}

#[test]
fn plan_of_one_element_visits_local_entries_row_major() {
    let plan = assembly_plan(&vec![tri(3, 1, 2)], 3);
    assert_eq!(plan.len(), 9);
    let dofs = [2usize, 0, 1];
    for i in 0..3 {
        for j in 0..3 {
            assert_eq!(
                plan[3 * i + j],
                Contribution { row: dofs[i], col: dofs[j], element: 0, local_row: i, local_col: j }
            );
        }
    }
}

#[test]
fn plan_of_two_elements_follows_element_order() {
    let plan = assembly_plan(&vec![tri(1, 2, 3), tri(2, 4, 3)], 4);
    assert_eq!(plan.len(), 18);
    assert_eq!(
        plan[9],
        Contribution { row: 1, col: 1, element: 1, local_row: 0, local_col: 0 }
    );
    assert_eq!(
        plan[9 + 5],
        Contribution { row: 3, col: 2, element: 1, local_row: 1, local_col: 2 }
    );
}

#[test]
fn plan_of_empty_mesh_is_empty() {
    assert!(assembly_plan(&Vec::new(), 5).is_empty());
}

#[test]
fn plan_is_symmetric() {
    let plan = assembly_plan(&vec![tri(1, 2, 3), tri(2, 4, 3), tri(4, 5, 3)], 5);
    for (p, c) in plan.iter().enumerate() {
        let q = 9 * (p / 9) + 3 * (p % 3) + (p % 9) / 3;
        let m = plan[q];
        assert_eq!((m.row, m.col, m.element), (c.col, c.row, c.element));
        assert_eq!((m.local_row, m.local_col), (c.local_col, c.local_row));
    }
}

#[test]
fn every_contribution_stays_inside_the_matrix() {
    let plan = assembly_plan(&vec![tri(1, 2, 3), tri(2, 4, 3)], 4);
    assert!(plan.iter().all(|c| c.row < 4 && c.col < 4));
}
