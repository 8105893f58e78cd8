use kayak_ui::context::{KayakRootContext, SpawnPlan, WidgetName};
use kayak_ui::layout::Rect;
use kayak_ui::node::WrappedIndex;
use kayak_ui::styles::units::{CursorIcon, FloatBits};
use kayak_ui::widget_removal::ChildChange;

#[test]
fn widget_name_defaults_and_converts() {
    assert_eq!(WidgetName::default().0, "NO_NAME");
    let name = WidgetName::from(String::from("Button"));
    assert_eq!(name.0, "Button");
    assert_eq!(String::from(name), "Button");
}

#[test]
fn root_context_starts_empty() {
    let ctx = KayakRootContext::new(42);
    assert_eq!(ctx.camera_entity, 42);
    assert_eq!(ctx.current_cursor, CursorIcon::Default);
    assert_eq!(ctx.get_current_focus(), None);
    assert_eq!(ctx.get_layout(WrappedIndex(1)), None);
    assert!(!ctx.get_geometry_changed(WrappedIndex(1)));
    assert!(ctx.tree.root_node.is_none());
}

#[test]
fn root_context_adds_widgets() {
    let mut ctx = KayakRootContext::new(0);
    ctx.add_widget(None, 1);
    ctx.add_widget(Some(1), 2);
    assert_eq!(ctx.tree.root_node, Some(WrappedIndex(1)));
    assert_eq!(ctx.tree.get_parent(WrappedIndex(2)), Some(WrappedIndex(1)));
    assert!(ctx.layout_cache.visible(WrappedIndex(2)));
    ctx.layout_cache.rect.insert(2, Rect { width: FloatBits(5), ..Rect::default() });
    assert_eq!(ctx.get_layout(WrappedIndex(2)).map(|r| r.width), Some(FloatBits(5)));
}

#[test]
fn root_context_reuses_children_by_position() {
    let mut ctx = KayakRootContext::new(0);
    assert_eq!(ctx.spawn_widget(None, Some(10)), SpawnPlan::SpawnNew);
    ctx.register_spawned_widget(11, None, Some(10));
    assert_eq!(ctx.spawn_widget(None, Some(10)), SpawnPlan::SpawnNew);
    ctx.register_spawned_widget(12, None, Some(10));
    assert_eq!(ctx.get_children_ordered(10), vec![11, 12]);
    // A new render starts counting again and reuses the children in order.
    ctx.finish_update(None);
    assert_eq!(ctx.spawn_widget(None, Some(10)), SpawnPlan::ReuseChild(11));
    assert_eq!(ctx.spawn_widget(None, Some(10)), SpawnPlan::ReuseChild(12));
    assert_eq!(ctx.spawn_widget(None, Some(10)), SpawnPlan::SpawnNew);
    // The root is always spawned anew.
    assert_eq!(ctx.spawn_widget(None, None), SpawnPlan::SpawnNew);
}

#[test]
fn root_context_reuses_keyed_children() {
    let mut ctx = KayakRootContext::new(0);
    assert_eq!(ctx.spawn_widget(Some("item"), Some(10)), SpawnPlan::SpawnNew);
    ctx.register_spawned_widget(20, Some("item"), Some(10));
    assert_eq!(ctx.spawn_widget(Some("item"), Some(10)), SpawnPlan::ReuseKeyed(20));
    assert_eq!(ctx.spawn_widget(Some("other"), Some(10)), SpawnPlan::SpawnNew);
    assert_eq!(ctx.spawn_widget(Some("item"), Some(11)), SpawnPlan::SpawnNew);
    // Keyed children do not count as positional ones.
    assert!(ctx.get_children_ordered(10).is_empty());
    assert_eq!(ctx.get_and_add_index(10), 0);
}

#[test]
fn root_context_counts_spawned_children() {
    let mut ctx = KayakRootContext::new(0);
    assert_eq!(ctx.get_and_add_index(3), 0);
    assert_eq!(ctx.get_and_add_index(3), 1);
    assert_eq!(ctx.get_and_add_index(4), 0);
    ctx.finish_update(None);
    assert_eq!(ctx.get_and_add_index(3), 0);
}

#[test]
fn update_pass_restores_focus() {
    let mut ctx = KayakRootContext::new(0);
    ctx.add_widget(None, 1);
    ctx.add_widget(Some(1), 2);
    ctx.focus_tree.add(WrappedIndex(1), &ctx.tree);
    ctx.focus_tree.add(WrappedIndex(2), &ctx.tree);
    ctx.focus_tree.focus(2);
    let old_focus = ctx.begin_update();
    assert_eq!(old_focus, Some(2));
    // Only the root is in the focus tree now, and it has focus.
    assert_eq!(ctx.get_current_focus(), Some(1));
    assert!(!ctx.focus_tree.contains(2));
    // The widget is added again during the pass, so it gets focus back.
    ctx.settle_entity(2, true, false, true);
    ctx.finish_update(old_focus);
    assert_eq!(ctx.get_current_focus(), Some(2));
}

#[test]
fn update_pass_drops_focus_of_removed_widget() {
    let mut ctx = KayakRootContext::new(0);
    ctx.add_widget(None, 1);
    ctx.add_widget(Some(1), 2);
    ctx.focus_tree.add(WrappedIndex(1), &ctx.tree);
    ctx.focus_tree.add(WrappedIndex(2), &ctx.tree);
    ctx.focus_tree.focus(2);
    let old_focus = ctx.begin_update();
    ctx.finish_update(old_focus);
    assert_eq!(ctx.get_current_focus(), Some(1));
}

#[test]
fn update_pass_prunes_dangling_entities() {
    let mut ctx = KayakRootContext::new(0);
    ctx.add_widget(None, 1);
    ctx.add_widget(Some(1), 2);
    ctx.add_widget(Some(1), 3);
    ctx.order_tree.add(WrappedIndex(1), None);
    ctx.order_tree.add(WrappedIndex(2), Some(WrappedIndex(1)));
    // A gone entity that a widget still holds among its children stays.
    ctx.settle_entity(2, false, true, false);
    assert!(ctx.tree.contains(WrappedIndex(2)));
    assert!(ctx.order_tree.contains(WrappedIndex(2)));
    // One that nobody holds leaves both trees.
    ctx.settle_entity(2, false, false, false);
    assert!(!ctx.tree.contains(WrappedIndex(2)));
    assert!(!ctx.order_tree.contains(WrappedIndex(2)));
    assert_eq!(ctx.tree.get_first_child(WrappedIndex(1)), Some(WrappedIndex(3)));
    // An existing entity that is not focusable is left alone.
    ctx.settle_entity(3, true, false, false);
    assert!(ctx.tree.contains(WrappedIndex(3)));
    assert!(!ctx.focus_tree.contains(3));
    // A focusable one joins the focus tree; the first becomes its root and gets focus.
    ctx.settle_entity(3, true, false, true);
    assert!(ctx.focus_tree.contains(3));
    assert_eq!(ctx.get_current_focus(), Some(3));
}

#[test]
fn root_context_entities() {
    let mut ctx = KayakRootContext::new(0);
    ctx.set_context_entity(7, Some(1), 100);
    ctx.set_context_entity(7, None, 200);
    assert_eq!(ctx.context_entities.get_context_entity(7, 1), Some(100));
    assert_eq!(ctx.context_entities.get_context_entity(8, 1), None);
}

#[test]
fn removals_after_children_diff() {
    let mut ctx = KayakRootContext::new(0);
    // Widget tree: 1 -> [2, 3, 5], 3 -> [4].
    ctx.add_widget(None, 1);
    ctx.add_widget(Some(1), 2);
    ctx.add_widget(Some(1), 3);
    ctx.add_widget(Some(3), 4);
    ctx.add_widget(Some(1), 5);
    // Spawned widgets: 2 and 3 by position under 1, 5 under the key "k".
    ctx.register_spawned_widget(2, None, Some(1));
    ctx.register_spawned_widget(3, None, Some(1));
    ctx.register_spawned_widget(5, Some("k"), Some(1));
    ctx.widget_state.add(2, 20);
    ctx.widget_state.add(5, 50);
    let change = |child: u64, inserted: bool, deleted: bool, renamed: bool, still_held: bool, descendants: Vec<u64>| {
        ChildChange { parent: 1, child, inserted, deleted, renamed, still_held, descendants }
    };
    let changes = vec![
        change(2, false, true, false, false, vec![]),
        change(3, false, false, true, false, vec![4]),
        change(6, true, false, false, false, vec![]),
        change(5, false, true, false, false, vec![]),
        change(7, false, true, false, true, vec![]),
    ];
    let removed = ctx.plan_removals(&changes);
    assert_eq!(removed, vec![(1, 2, Some(20)), (1, 4, None), (1, 5, Some(50))]);
    // 2 and 3 left the tree of spawned widgets; 5 gave up its key; 6 joined the layout.
    assert!(ctx.get_children_ordered(1).is_empty());
    assert_eq!(ctx.spawn_widget(Some("k"), Some(1)), SpawnPlan::SpawnNew);
    assert!(ctx.unique_ids_parents.is_empty());
    assert_eq!(ctx.widget_state.get(2), None);
    assert_eq!(ctx.widget_state.get(5), None);
    assert!(ctx.layout_cache.visible.contains_key(&6));
    // The widget tree itself is left for the merge.
    assert_eq!(ctx.tree.get_parent(WrappedIndex(2)), Some(WrappedIndex(1)));
}
