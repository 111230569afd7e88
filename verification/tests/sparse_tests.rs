use thermo_fem::sparse::sparse_pattern;

#[test]
fn pattern_lists_nonzeros_row_major() {
    let mask = vec![vec![true, false, true], vec![false, false, false], vec![false, true, true]];
    assert_eq!(sparse_pattern(&mask), vec![(0, 0), (0, 2), (2, 1), (2, 2)]);
}

#[test]
fn pattern_of_zero_matrix_is_empty() {
    assert!(sparse_pattern(&vec![vec![false, false], vec![false, false]]).is_empty());
    assert!(sparse_pattern(&Vec::new()).is_empty());
}

#[test]
fn pattern_length_is_nonzero_count_and_sorted() {
    let mask: Vec<Vec<bool>> = (0..5)
        .map(|r| (0..5).map(|c| (r + c) % 3 != 0 || r == c).collect())
        .collect();
    let p = sparse_pattern(&mask);
    let count = mask.iter().flatten().filter(|b| **b).count();
    assert_eq!(p.len(), count);
    for w in p.windows(2) {
        assert!(w[0] < w[1]);
    }
    for &(r, c) in &p {
        assert!(mask[r][c]);
    }
}
