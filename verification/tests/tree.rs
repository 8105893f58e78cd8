use kayak_ui::node::WrappedIndex;
use kayak_ui::tree::Tree;

fn sample() -> Tree {
    let mut tree = Tree::default();
    tree.add(WrappedIndex(0), None);
    tree.add(WrappedIndex(1), Some(WrappedIndex(0)));
    tree.add(WrappedIndex(2), Some(WrappedIndex(0)));
    tree.add(WrappedIndex(3), Some(WrappedIndex(0)));
    tree.add(WrappedIndex(4), Some(WrappedIndex(2)));
    tree.add(WrappedIndex(5), Some(WrappedIndex(2)));
    tree
}

#[test]
fn tree_navigation() {
    let tree = sample();
    assert!(tree.contains(WrappedIndex(0)));
    assert!(tree.contains(WrappedIndex(5)));
    assert!(!tree.contains(WrappedIndex(9)));
    assert_eq!(None, tree.get_parent(WrappedIndex(0)));
    assert_eq!(Some(WrappedIndex(2)), tree.get_parent(WrappedIndex(5)));
    assert_eq!(Some(WrappedIndex(1)), tree.get_first_child(WrappedIndex(0)));
    assert_eq!(Some(WrappedIndex(3)), tree.get_last_child(WrappedIndex(0)));
    assert_eq!(None, tree.get_first_child(WrappedIndex(1)));
    assert_eq!(Some(WrappedIndex(3)), tree.get_next_sibling(WrappedIndex(2)));
    assert_eq!(None, tree.get_next_sibling(WrappedIndex(3)));
    assert_eq!(Some(WrappedIndex(1)), tree.get_prev_sibling(WrappedIndex(2)));
    assert_eq!(None, tree.get_prev_sibling(WrappedIndex(1)));
    assert_eq!(None, tree.get_next_sibling(WrappedIndex(0)));
}

#[test]
fn remove_and_reparent_splices_children_in_place() {
    let mut tree = sample();
    tree.remove_and_reparent(WrappedIndex(2));
    assert!(!tree.contains(WrappedIndex(2)));
    assert_eq!(Some(WrappedIndex(0)), tree.get_parent(WrappedIndex(4)));
    assert_eq!(Some(WrappedIndex(0)), tree.get_parent(WrappedIndex(5)));
    let children: Vec<WrappedIndex> = tree.children.get(&0).unwrap().clone();
    assert_eq!(
        vec![WrappedIndex(1), WrappedIndex(4), WrappedIndex(5), WrappedIndex(3)],
        children
    );
    assert_eq!(Some(WrappedIndex(5)), tree.get_next_sibling(WrappedIndex(4)));
}

#[test]
fn remove_and_reparent_of_a_stranger_changes_nothing() {
    let mut tree = sample();
    tree.remove_and_reparent(WrappedIndex(42));
    assert_eq!(6, tree.parents.len() + 1);
    assert_eq!(Some(WrappedIndex(2)), tree.get_parent(WrappedIndex(4)));
}

#[test]
fn tree_remove_detaches_node() {
    let mut tree = sample();
    tree.remove(WrappedIndex(2));
    assert_eq!(tree.children[&0], vec![WrappedIndex(1), WrappedIndex(3)]);
    assert_eq!(tree.get_parent(WrappedIndex(2)), None);
    // The children of the removed node lose their parent link.
    assert_eq!(tree.get_parent(WrappedIndex(4)), None);
    assert!(!tree.children.contains_key(&2));
    // Removing a node that is not in the tree changes nothing; removing the root empties it.
    tree.remove(WrappedIndex(9));
    assert_eq!(tree.children[&0].len(), 2);
    tree.remove(WrappedIndex(0));
    assert!(tree.root_node.is_none());
    assert!(tree.children.is_empty());
}
