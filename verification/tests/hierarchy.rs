use sbf::HierarchyTree;

#[test]
fn new() {
    let elements = vec![1u64, 2, 3, 4];
    let tree = HierarchyTree::new(elements.clone());

    println!("Hierarchy tree: {:?}", tree);

    // First combination
    let first = tree.idx_to_vec(0).unwrap();
    for i in 0..first.len() {
        assert_eq!(first[i], elements[i]);
    }

    // Last combination
    assert_eq!(tree.idx_to_vec(tree.size() - 1).unwrap().len(), 0);
}

#[test]
fn top_iter() {
    let elements = vec![1u64, 2, 3, 4];
    let tree = HierarchyTree::new(elements.clone());

    let iter = tree.top_iter();

    let first_elements = iter.current_vec();
    assert_eq!(first_elements, elements);

    let children = iter.children();
    println!("Children: {:?}", &children);
    let mut child_iter = children.into_iter();
    assert_eq!(child_iter.next(), Some(vec![1u64, 2, 3]));
    assert_eq!(child_iter.next(), Some(vec![1u64, 2, 4]));
    assert_eq!(child_iter.next(), Some(vec![1u64, 3, 4]));
    assert_eq!(child_iter.next(), Some(vec![2u64, 3, 4]));
    assert_eq!(child_iter.next(), None);
}

#[test]
fn bottom_iter() {}

#[test]
fn bottom_iter_is_empty() {
    let elements = vec![1u64, 2, 3];
    let tree = HierarchyTree::new(elements);
    let iter = tree.bottom_iter();
    assert_eq!(iter.current_idx(), usize::MAX);
    assert!(iter.current_vec().is_empty());
}

#[test]
fn table_layout_and_lookup() {
    // For [1, 2, 3, 4]: 1 subset of size 4, then 4 of size 3, 6 of size 2,
    // 4 of size 1, 1 of size 0, in lexicographic order of positions.
    let tree = HierarchyTree::new(vec![1u64, 2, 3, 4]);
    assert_eq!(tree.size(), 16);
    assert_eq!(tree.idx_to_vec(0), Some(vec![1u64, 2, 3, 4]));
    assert_eq!(tree.idx_to_vec(1), Some(vec![1u64, 2, 3]));
    assert_eq!(tree.idx_to_vec(2), Some(vec![1u64, 2, 4]));
    assert_eq!(tree.idx_to_vec(3), Some(vec![1u64, 3, 4]));
    assert_eq!(tree.idx_to_vec(4), Some(vec![2u64, 3, 4]));
    assert_eq!(tree.idx_to_vec(5), Some(vec![1u64, 2]));
    assert_eq!(tree.idx_to_vec(10), Some(vec![3u64, 4]));
    assert_eq!(tree.idx_to_vec(11), Some(vec![1u64]));
    assert_eq!(tree.idx_to_vec(15), Some(vec![]));
    assert_eq!(tree.idx_to_vec(16), None);

    assert_eq!(tree.vec_to_idx(&vec![1u64, 2, 3, 4]), Some(0));
    assert_eq!(tree.vec_to_idx(&vec![1u64, 2, 3]), Some(1));
    assert_eq!(tree.vec_to_idx(&vec![3u64, 4]), Some(10));
    assert_eq!(tree.vec_to_idx(&vec![]), Some(15));
    assert_eq!(tree.vec_to_idx(&vec![5u64]), None);
}
