use kayak_ui::children::KChildren;
use kayak_ui::context_entities::ContextEntities;
use kayak_ui::layout::LayoutCache;
use kayak_ui::node::WrappedIndex;
use kayak_ui::tree::Tree;
use kayak_ui::widget_context::KayakWidgetContext;
use kayak_ui::widget_state::WidgetState;

#[test]
fn children_store_in_order() {
    let mut children = KChildren::new();
    assert!(children.is_empty());
    children.add(3);
    children.add(5);
    children.add(8);
    assert_eq!(3, children.len());
    assert_eq!(Some(5), children.get(1));
    assert_eq!(None, children.get(3));
    assert_eq!(vec![3, 5, 8], children.iter().copied().collect::<Vec<_>>());
    assert_eq!(Some(3), children.remove(0));
    assert_eq!(None, children.remove(5));
    assert_eq!(Some(5), children.get(0));
    assert_eq!(vec![5, 8], children.despawn());
    assert!(children.is_empty());
}

#[test]
fn children_are_added_under_parent() {
    let mut ctx = KayakWidgetContext::new(
        Tree::default(),
        ContextEntities::new(),
        LayoutCache::new(),
        WidgetState::new(),
        Tree::default(),
        std::collections::HashMap::new(),
        None,
    );
    let mut children = KChildren::new();
    children.add(2);
    children.add(3);
    ctx.add_widget(None, 1);
    children.process(&mut ctx, Some(1));
    assert_eq!(ctx.get_children(1), vec![2, 3]);
    assert_eq!(ctx.new_tree.get_parent(WrappedIndex(3)), Some(WrappedIndex(1)));
    let mut roots = KChildren::new();
    roots.add(8);
    roots.add(9);
    roots.process(&mut ctx, None);
    assert_eq!(ctx.new_tree.root_node, Some(WrappedIndex(9)));
}

#[test]
fn children_default_is_empty() {
    let children = KChildren::default();
    assert_eq!(children, KChildren::new());
    assert!(children.is_empty());
    assert_eq!(children.len(), 0);
    assert_eq!(children.get(0), None);
}
