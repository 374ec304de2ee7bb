use bem_laplace::elements::{element_pair, next_node};

#[test]
fn last_element_wraps_to_first_node() {
    assert_eq!(next_node(31, 32), 0);
    assert_eq!(next_node(0, 32), 1);
    assert_eq!(next_node(5, 32), 6);
}

#[test]
fn element_pair_marks_the_diagonal() {
    let p = element_pair(2, 2, 3);
    assert_eq!((p.mid_start, p.mid_end, p.src_start, p.src_end), (2, 0, 2, 0));
    assert!(p.self_influence);
    let q = element_pair(0, 2, 3);
    assert_eq!((q.mid_start, q.mid_end, q.src_start, q.src_end), (0, 1, 2, 0));
    assert!(!q.self_influence);
}
