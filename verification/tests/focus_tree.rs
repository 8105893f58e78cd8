use kayak_ui::focus_tree::{FocusTracker, FocusTree};
use kayak_ui::node::WrappedIndex;
use kayak_ui::tree::Tree;

fn sample_trees() -> (FocusTree, Tree, [WrappedIndex; 7]) {
    let mut focus_tree = FocusTree::default();
    let mut tree = Tree::default();

    let a = WrappedIndex(0);
    tree.add(a, None);
    let a_a = WrappedIndex(1);
    tree.add(a_a, Some(a));
    let a_b = WrappedIndex(2);
    tree.add(a_b, Some(a));
    let a_a_a = WrappedIndex(3);
    tree.add(a_a_a, Some(a_a));
    let a_a_a_a = WrappedIndex(4);
    tree.add(a_a_a_a, Some(a_a_a));
    let a_a_a_b = WrappedIndex(5);
    tree.add(a_a_a_b, Some(a_a_a));
    let a_b_a = WrappedIndex(6);
    tree.add(a_b_a, Some(a_b));

    for index in [a, a_a, a_b, a_a_a, a_a_a_a, a_a_a_b, a_b_a] {
        focus_tree.add(index, &tree);
    }
    (focus_tree, tree, [a, a_a, a_b, a_a_a, a_a_a_a, a_a_a_b, a_b_a])
}

#[test]
fn next_should_cycle() {
    let mut focus_tree = FocusTree::default();
    let mut tree = Tree::default();

    let a = WrappedIndex(0);
    tree.add(a, None);
    let a_a = WrappedIndex(1);
    tree.add(a_a, Some(a));
    let a_b = WrappedIndex(2);
    tree.add(a_b, Some(a));
    let a_a_a = WrappedIndex(3);
    tree.add(a_a_a, Some(a_a));
    let a_a_a_a = WrappedIndex(4);
    tree.add(a_a_a_a, Some(a_a_a));
    let a_a_a_b = WrappedIndex(5);
    tree.add(a_a_a_b, Some(a_a_a));
    let a_b_a = WrappedIndex(6);
    tree.add(a_b_a, Some(a_b));

    focus_tree.add(a, &tree);
    focus_tree.add(a_a, &tree);
    focus_tree.add(a_b, &tree);
    focus_tree.add(a_a_a, &tree);
    focus_tree.add(a_a_a_a, &tree);
    focus_tree.add(a_a_a_b, &tree);
    focus_tree.add(a_b_a, &tree);

    assert_eq!(Some(a.0), focus_tree.current());
    assert_eq!(Some(a_a.0), focus_tree.next());
    assert_eq!(Some(a_a_a.0), focus_tree.next());
    assert_eq!(Some(a_a_a_a.0), focus_tree.next());
    assert_eq!(Some(a_a_a_b.0), focus_tree.next());
    assert_eq!(Some(a_b.0), focus_tree.next());
    assert_eq!(Some(a_b_a.0), focus_tree.next());

    assert_eq!(Some(a.0), focus_tree.next());
    assert_eq!(Some(a_a.0), focus_tree.next());
}

#[test]
fn prev_should_cycle() {
    let mut focus_tree = FocusTree::default();
    let mut tree = Tree::default();

    let a = WrappedIndex(0);
    tree.add(a, None);
    let a_a = WrappedIndex(1);
    tree.add(a_a, Some(a));
    let a_b = WrappedIndex(2);
    tree.add(a_b, Some(a));
    let a_a_a = WrappedIndex(3);
    tree.add(a_a_a, Some(a_a));
    let a_a_a_a = WrappedIndex(4);
    tree.add(a_a_a_a, Some(a_a_a));
    let a_a_a_b = WrappedIndex(5);
    tree.add(a_a_a_b, Some(a_a_a));
    let a_b_a = WrappedIndex(6);
    tree.add(a_b_a, Some(a_b));

    focus_tree.add(a, &tree);
    focus_tree.add(a_a, &tree);
    focus_tree.add(a_b, &tree);
    focus_tree.add(a_a_a, &tree);
    focus_tree.add(a_a_a_a, &tree);
    focus_tree.add(a_a_a_b, &tree);
    focus_tree.add(a_b_a, &tree);

    assert_eq!(Some(a.0), focus_tree.current());
    assert_eq!(Some(a_b_a.0), focus_tree.prev());
    assert_eq!(Some(a_b.0), focus_tree.prev());
    assert_eq!(Some(a_a_a_b.0), focus_tree.prev());
    assert_eq!(Some(a_a_a_a.0), focus_tree.prev());
    assert_eq!(Some(a_a_a.0), focus_tree.prev());
    assert_eq!(Some(a_a.0), focus_tree.prev());

    assert_eq!(Some(a.0), focus_tree.prev());
    assert_eq!(Some(a_b_a.0), focus_tree.prev());
}

#[test]
fn next_then_prev_returns_to_every_widget() {
    let (mut focus_tree, _tree, nodes) = sample_trees();
    for node in nodes {
        focus_tree.focus(node.0);
        focus_tree.next();
        assert_eq!(Some(node.0), focus_tree.prev());
        focus_tree.prev();
        assert_eq!(Some(node.0), focus_tree.next());
    }
}

#[test]
fn peek_does_not_change_focus() {
    let (focus_tree, _tree, nodes) = sample_trees();
    assert_eq!(Some(nodes[1]), focus_tree.peek_next(Some(nodes[0])));
    assert_eq!(Some(nodes[6]), focus_tree.peek_prev(Some(nodes[0])));
    assert_eq!(Some(nodes[0]), focus_tree.peek_next(None));
    assert_eq!(Some(nodes[0]), focus_tree.peek_prev(None));
    assert_eq!(Some(0), focus_tree.current());
}

#[test]
fn empty_focus_tree_has_nowhere_to_go() {
    let mut focus_tree = FocusTree::default();
    assert_eq!(None, focus_tree.current());
    assert_eq!(None, focus_tree.next());
    assert_eq!(None, focus_tree.prev());
}

#[test]
fn add_places_widget_under_nearest_focusable_ancestor() {
    let mut tree = Tree::default();
    tree.add(WrappedIndex(10), None);
    tree.add(WrappedIndex(11), Some(WrappedIndex(10)));
    tree.add(WrappedIndex(12), Some(WrappedIndex(11)));
    let mut focus_tree = FocusTree::default();
    focus_tree.add(WrappedIndex(10), &tree);
    // 11 is not focusable: 12 goes under 10.
    focus_tree.add(WrappedIndex(12), &tree);
    assert!(focus_tree.contains(12));
    assert!(!focus_tree.contains(11));
    assert_eq!(Some(12), focus_tree.next());
    assert_eq!(Some(10), focus_tree.next());
    // A widget without a focusable ancestor is ignored once there is a root.
    let mut other = Tree::default();
    other.add(WrappedIndex(20), None);
    focus_tree.add(WrappedIndex(20), &other);
    assert!(!focus_tree.contains(20));
}

#[test]
fn remove_reparents_children_and_returns_focus_to_root() {
    let (mut focus_tree, _tree, nodes) = sample_trees();
    focus_tree.focus(nodes[3].0);
    focus_tree.remove(nodes[3]);
    assert!(!focus_tree.contains(nodes[3].0));
    assert_eq!(Some(nodes[0].0), focus_tree.current());
    // Pre-order is now a, a_a, a_a_a_a, a_a_a_b, a_b, a_b_a.
    assert_eq!(Some(nodes[1].0), focus_tree.next());
    assert_eq!(Some(nodes[4].0), focus_tree.next());
    assert_eq!(Some(nodes[5].0), focus_tree.next());
    assert_eq!(Some(nodes[2].0), focus_tree.next());
    // Removing the root empties the tree.
    focus_tree.remove(nodes[0]);
    assert!(!focus_tree.contains(nodes[1].0));
    assert_eq!(None, focus_tree.peek_next(None));
}

#[test]
fn clear_and_blur() {
    let (mut focus_tree, _tree, nodes) = sample_trees();
    focus_tree.focus(nodes[4].0);
    focus_tree.blur();
    assert_eq!(Some(nodes[0].0), focus_tree.current());
    focus_tree.clear();
    assert_eq!(None, focus_tree.current());
    assert!(!focus_tree.contains(nodes[0].0));
}

#[test]
fn widget_focusability_overrides_parent() {
    let mut tracker = FocusTracker::default();
    let w = WrappedIndex(7);
    assert_eq!(None, tracker.get_focusability(w));
    tracker.set_focusability(w, Some(true), true);
    assert_eq!(Some(true), tracker.get_focusability(w));
    tracker.set_focusability(w, Some(false), false);
    assert_eq!(Some(false), tracker.get_focusability(w));
    tracker.set_focusability(w, Some(true), true);
    assert_eq!(Some(false), tracker.get_focusability(w));
    tracker.set_focusability(w, None, false);
    assert_eq!(Some(true), tracker.get_focusability(w));
    tracker.set_focusability(w, None, true);
    assert_eq!(None, tracker.get_focusability(w));
}

#[test]
fn widget_without_focusable_ancestor_is_ignored_once_there_is_a_root() {
    let mut widgets = Tree::default();
    widgets.add(WrappedIndex(0), None);
    widgets.add(WrappedIndex(1), Some(WrappedIndex(0)));
    widgets.add(WrappedIndex(2), Some(WrappedIndex(1)));
    let mut ft = FocusTree::default();
    ft.add(WrappedIndex(1), &widgets);
    assert_eq!(ft.current(), Some(1));
    // 0 has no focusable ancestor and the focus tree has a root: nothing changes.
    ft.add(WrappedIndex(0), &widgets);
    assert!(!ft.contains(0));
    ft.add(WrappedIndex(2), &widgets);
    assert_eq!(ft.next(), Some(2));
    assert_eq!(ft.next(), Some(1));
}
