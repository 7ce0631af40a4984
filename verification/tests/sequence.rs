use tiledb_query::sequence::SequenceValueTree;

#[test]
fn sequence_starts_at_full_length() {
    let vt = SequenceValueTree::new(vec![1u64, 2, 3]);
    assert_eq!(vt.current_length, 3);
    assert_eq!(vt.current(), vec![1, 2, 3]);
}

#[test]
fn sequence_simplify_halves_and_stops_at_empty() {
    let mut vt = SequenceValueTree::new(vec![1u64, 2, 3, 4, 5]);
    assert!(vt.simplify());
    assert_eq!(vt.current(), vec![1, 2]);
    assert!(vt.simplify());
    assert_eq!(vt.current(), vec![1]);
    assert!(vt.simplify());
    assert_eq!(vt.current(), Vec::<u64>::new());
    assert!(!vt.simplify());
}

#[test]
fn sequence_complicate_regrows_in_order() {
    let mut vt = SequenceValueTree::new(vec![7u64, 8, 9]);
    assert!(vt.simplify());
    assert_eq!(vt.current(), vec![7]);
    assert!(vt.complicate());
    assert_eq!(vt.current(), vec![7, 8]);
    assert!(vt.complicate());
    assert_eq!(vt.current(), vec![7, 8, 9]);
    assert!(!vt.complicate());
}

#[test]
fn sequence_current_is_always_a_prefix() {
    let init = vec![4u64, 9, 16, 25, 36, 49, 64];
    let mut vt = SequenceValueTree::new(init.clone());
    for _ in 0..4 {
        vt.simplify();
        let cur = vt.current();
        assert_eq!(&init[0..cur.len()], &cur[..]);
    }
    for _ in 0..10 {
        vt.complicate();
        let cur = vt.current();
        assert_eq!(&init[0..cur.len()], &cur[..]);
    }
}
