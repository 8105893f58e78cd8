use std::collections::HashSet;

use kayak_ui::layout::{GeometryChanged, Layout, LayoutCache, LayoutEvent, Rect};
use kayak_ui::layout_dispatcher::LayoutEventDispatcher;
use kayak_ui::node::WrappedIndex;
use kayak_ui::styles::units::FloatBits;
use kayak_ui::tree::Tree;

fn flag(bits: u8) -> GeometryChanged {
    GeometryChanged { bits }
}

fn rect(x: u32) -> Rect {
    Rect {
        posx: FloatBits(x),
        posy: FloatBits(x + 1),
        width: FloatBits(x + 2),
        height: FloatBits(x + 3),
        z_index: FloatBits(x + 4),
    }
}

#[test]
fn geometry_flags_set_and_clear() {
    let mut g = GeometryChanged::empty();
    assert!(g.is_empty());
    g.set(flag(GeometryChanged::CHANGE_POSX | GeometryChanged::WIDTH_CHANGED), true);
    assert_eq!(g.bits, 0b0100_0001);
    assert!(g.contains(flag(GeometryChanged::CHANGE_POSX)));
    assert!(!g.contains(flag(GeometryChanged::CHANGE_POSY)));
    g.set(flag(GeometryChanged::CHANGE_POSX), false);
    assert_eq!(g.bits, GeometryChanged::WIDTH_CHANGED);
    g.set(flag(GeometryChanged::WIDTH_CHANGED), false);
    assert!(g.is_empty());
}

#[test]
fn layout_cache_visibility() {
    let mut cache = LayoutCache::new();
    assert!(cache.visible(WrappedIndex(7)));
    cache.add(WrappedIndex(7));
    assert!(cache.visible(WrappedIndex(7)));
    cache.set_visible(WrappedIndex(7), false);
    assert!(!cache.visible(WrappedIndex(7)));
}

#[test]
fn layout_cache_geometry_flags() {
    let mut cache = LayoutCache::new();
    assert!(!cache.has_geometry_changed(WrappedIndex(1)));
    cache.set_geo_changed(WrappedIndex(1), flag(GeometryChanged::CHANGE_POSX), true);
    cache.set_geo_changed(WrappedIndex(1), flag(GeometryChanged::CHANGE_WIDTH), true);
    assert!(cache.has_geometry_changed(WrappedIndex(1)));
    assert_eq!(cache.geometry_changed(WrappedIndex(1)).bits, 0b0000_0101);
    assert!(cache.rect.contains_key(&1));
    assert_eq!(cache.rect[&1], Rect::default());
    cache.set_geo_changed(WrappedIndex(1), flag(GeometryChanged::CHANGE_POSX), false);
    assert_eq!(cache.geometry_changed(WrappedIndex(1)).bits, GeometryChanged::CHANGE_WIDTH);
    cache.set_geo_changed(WrappedIndex(1), flag(GeometryChanged::CHANGE_WIDTH), false);
    assert!(!cache.has_geometry_changed(WrappedIndex(1)));
    assert!(cache.geometry_changed.is_empty());
    assert_eq!(cache.geometry_changed(WrappedIndex(1)).bits, 0);
}

#[test]
fn layout_cache_lists_changed_nodes() {
    let mut cache = LayoutCache::new();
    cache.set_geo_changed(WrappedIndex(1), flag(GeometryChanged::POSX_CHANGED), true);
    cache.set_geo_changed(WrappedIndex(2), flag(GeometryChanged::POSY_CHANGED), true);
    let mut changed = cache.iter_changed();
    changed.sort_by_key(|(i, _)| i.0);
    assert_eq!(
        changed,
        vec![
            (WrappedIndex(1), flag(GeometryChanged::POSX_CHANGED)),
            (WrappedIndex(2), flag(GeometryChanged::POSY_CHANGED)),
        ]
    );
}

#[test]
fn layout_try_init_keeps_existing_rect() {
    let mut cache = LayoutCache::new();
    cache.rect.insert(3, rect(10));
    cache.try_init(WrappedIndex(3));
    cache.try_init(WrappedIndex(4));
    assert_eq!(cache.rect[&3], rect(10));
    assert_eq!(cache.rect[&4], Rect::default());
}

#[test]
fn layout_event_carries_rect() {
    let event = LayoutEvent::new(rect(1), flag(GeometryChanged::HEIGHT_CHANGED), 9);
    assert_eq!(
        event.layout,
        Layout { width: FloatBits(3), height: FloatBits(4), x: FloatBits(1), y: FloatBits(2), z: FloatBits(5) }
    );
    assert_eq!(event.flags.bits, GeometryChanged::HEIGHT_CHANGED);
    assert_eq!(event.target, 9);
    assert_eq!(Rect::from(event.layout), rect(1));
    assert_eq!(event.layout.pos(), (FloatBits(1), FloatBits(2)));
}

fn dispatch_tree() -> Tree {
    let mut tree = Tree::default();
    tree.add(WrappedIndex(0), None);
    tree.add(WrappedIndex(1), Some(WrappedIndex(0)));
    tree.add(WrappedIndex(2), Some(WrappedIndex(1)));
    tree.add(WrappedIndex(3), Some(WrappedIndex(1)));
    tree.add(WrappedIndex(4), Some(WrappedIndex(0)));
    tree
}

#[test]
fn layout_events_for_listeners_then_parents() {
    let tree = dispatch_tree();
    let mut cache = LayoutCache::new();
    for n in 0..5u32 {
        cache.rect.insert(n as u64, rect(n * 10));
    }
    let changed = vec![
        (WrappedIndex(2), flag(GeometryChanged::WIDTH_CHANGED)),
        (WrappedIndex(3), flag(GeometryChanged::HEIGHT_CHANGED)),
        (WrappedIndex(4), flag(GeometryChanged::POSX_CHANGED)),
        (WrappedIndex(1), flag(GeometryChanged::POSY_CHANGED)),
    ];
    let listeners: HashSet<u64> = [2u64, 3, 4].into_iter().collect();
    let events = LayoutEventDispatcher::plan(&changed, &cache, &tree, &listeners);
    let got: Vec<(u64, u8)> = events.iter().map(|e| (e.target, e.flags.bits)).collect();
    // 2, 3 and 4 changed and listen; their parents 1 and 0 follow once each, with no flags.
    assert_eq!(
        got,
        vec![
            (2, GeometryChanged::WIDTH_CHANGED),
            (3, GeometryChanged::HEIGHT_CHANGED),
            (4, GeometryChanged::POSX_CHANGED),
            (1, 0),
            (0, 0),
        ]
    );
    assert_eq!(events[0].layout, Layout::from(rect(20)));
}

#[test]
fn layout_events_skip_changed_parents_and_unknown_rects() {
    let tree = dispatch_tree();
    let mut cache = LayoutCache::new();
    cache.rect.insert(1, rect(1));
    cache.rect.insert(2, rect(2));
    let changed = vec![
        (WrappedIndex(2), flag(GeometryChanged::WIDTH_CHANGED)),
        (WrappedIndex(1), flag(GeometryChanged::POSY_CHANGED)),
        (WrappedIndex(3), flag(GeometryChanged::HEIGHT_CHANGED)),
    ];
    let listeners: HashSet<u64> = [1u64, 2, 3].into_iter().collect();
    let events = LayoutEventDispatcher::plan(&changed, &cache, &tree, &listeners);
    let got: Vec<(u64, u8)> = events.iter().map(|e| (e.target, e.flags.bits)).collect();
    // 1 changed itself, so it is not repeated as a parent; 3 and 0 have no rectangle.
    assert_eq!(got, vec![(2, GeometryChanged::WIDTH_CHANGED), (1, GeometryChanged::POSY_CHANGED)]);
}

#[test]
fn layout_dispatch_uses_cache_changes() {
    let tree = dispatch_tree();
    let mut cache = LayoutCache::new();
    cache.set_geo_changed(WrappedIndex(2), flag(GeometryChanged::WIDTH_CHANGED), true);
    cache.set_geo_changed(WrappedIndex(4), flag(GeometryChanged::HEIGHT_CHANGED), true);
    cache.rect.insert(0, rect(0));
    let listeners: HashSet<u64> = [2u64].into_iter().collect();
    let events = LayoutEventDispatcher::dispatch(&cache, &tree, &listeners);
    let got: Vec<(u64, u8)> = events.iter().map(|e| (e.target, e.flags.bits)).collect();
    assert_eq!(got, vec![(2, GeometryChanged::WIDTH_CHANGED)]);
}

#[test]
fn layout_events_never_repeat_a_widget() {
    let tree = dispatch_tree();
    let mut cache = LayoutCache::new();
    for n in 0..5u32 {
        cache.rect.insert(n as u64, rect(n));
    }
    // Node 2 is listed twice: it keeps its first place and takes its last flags.
    let changed = vec![
        (WrappedIndex(2), flag(GeometryChanged::WIDTH_CHANGED)),
        (WrappedIndex(3), flag(GeometryChanged::HEIGHT_CHANGED)),
        (WrappedIndex(2), flag(GeometryChanged::POSX_CHANGED)),
    ];
    let listeners: HashSet<u64> = [2u64, 3].into_iter().collect();
    let events = LayoutEventDispatcher::plan(&changed, &cache, &tree, &listeners);
    let got: Vec<(u64, u8)> = events.iter().map(|e| (e.target, e.flags.bits)).collect();
    assert_eq!(
        got,
        vec![(2, GeometryChanged::POSX_CHANGED), (3, GeometryChanged::HEIGHT_CHANGED), (1, 0)]
    );
}
