use std::collections::HashMap;

use kayak_ui::context_entities::ContextEntities;
use kayak_ui::layout::{LayoutCache, Rect};
use kayak_ui::node::WrappedIndex;
use kayak_ui::styles::units::FloatBits;
use kayak_ui::tree::Tree;
use kayak_ui::widget_context::KayakWidgetContext;
use kayak_ui::widget_state::WidgetState;

fn old_tree() -> Tree {
    let mut tree = Tree::default();
    tree.add(WrappedIndex(1), None);
    tree.add(WrappedIndex(2), Some(WrappedIndex(1)));
    tree.add(WrappedIndex(3), Some(WrappedIndex(2)));
    tree.add(WrappedIndex(4), Some(WrappedIndex(1)));
    tree
}

fn context(ce: ContextEntities) -> KayakWidgetContext {
    KayakWidgetContext::new(
        old_tree(),
        ce,
        LayoutCache::new(),
        WidgetState::new(),
        Tree::default(),
        HashMap::new(),
        Some(99),
    )
}

#[test]
fn context_entities_store_by_parent_and_type() {
    let mut ce = ContextEntities::new();
    assert_eq!(ce.get_context_entity(1, 10), None);
    ce.add_context_entity(1, 10, 100);
    ce.add_context_entity(2, 10, 200);
    ce.add_context_entity(1, 10, 101);
    assert_eq!(ce.get_context_entity(1, 10), Some(101));
    assert_eq!(ce.get_context_entity(2, 10), Some(200));
    assert_eq!(ce.get_context_entity(1, 11), None);
}

#[test]
fn context_entity_found_on_nearest_ancestor() {
    let mut ce = ContextEntities::new();
    ce.add_context_entity(5, 1, 100);
    ce.add_context_entity(5, 2, 200);
    ce.add_context_entity(6, 1, 300);
    let ctx = context(ce);
    assert_eq!(ctx.get_context_entity(5, 3), Some(200));
    assert_eq!(ctx.get_context_entity(5, 2), Some(200));
    assert_eq!(ctx.get_context_entity(5, 4), Some(100));
    assert_eq!(ctx.get_context_entity(6, 3), Some(300));
    assert_eq!(ctx.get_context_entity(7, 3), None);
    // An entity outside the tree only sees its own contexts.
    assert_eq!(ctx.get_context_entity(5, 50), None);
}

#[test]
fn widget_context_builds_new_tree() {
    let mut ctx = context(ContextEntities::new());
    assert_eq!(ctx.camera_entity, Some(99));
    ctx.add_widget(Some(1), 2);
    ctx.add_widget(Some(1), 3);
    assert_eq!(ctx.get_children(1), vec![2, 3]);
    ctx.clear_children(1);
    assert!(ctx.get_children(1).is_empty());
    ctx.set_context_entity(3, Some(1), 30);
    ctx.set_context_entity(3, None, 31);
    assert_eq!(ctx.context_entities.get_context_entity(3, 1), Some(30));
    let tree = ctx.take();
    assert!(tree.children[&1].is_empty());
}

#[test]
fn widget_context_spawns_and_reuses() {
    let mut ctx = context(ContextEntities::new());
    assert_eq!(ctx.spawn_widget(Some(1)), None);
    ctx.register_spawned_widget(20, Some(1));
    assert_eq!(ctx.spawn_widget(Some(1)), None);
    ctx.register_spawned_widget(21, Some(1));
    ctx.index.clear();
    assert_eq!(ctx.spawn_widget(Some(1)), Some(20));
    assert_eq!(ctx.spawn_widget(Some(1)), Some(21));
    assert_eq!(ctx.spawn_widget(Some(1)), None);
    assert_eq!(ctx.spawn_widget(None), None);
}

#[test]
fn widget_context_state_and_layout() {
    let mut ctx = context(ContextEntities::new());
    assert_eq!(ctx.get_state(5), None);
    assert_eq!(ctx.use_state(5, 50), 50);
    assert_eq!(ctx.use_state(5, 51), 50);
    assert_eq!(ctx.get_state(5), Some(50));
    assert_eq!(ctx.get_layout(5), None);
    ctx.layout_cache.rect.insert(5, Rect { posx: FloatBits(2), ..Rect::default() });
    assert_eq!(ctx.get_layout(5).map(|r| r.posx), Some(FloatBits(2)));
}

#[test]
fn widget_context_removes_children() {
    let mut ctx = context(ContextEntities::new());
    ctx.add_widget(None, 1);
    ctx.add_widget(Some(1), 2);
    ctx.add_widget(Some(1), 3);
    ctx.add_widget(Some(1), 4);
    ctx.remove_children(vec![2, 4]);
    assert_eq!(ctx.get_children(1), vec![3]);
    assert_eq!(ctx.new_tree.get_parent(WrappedIndex(2)), None);
}
