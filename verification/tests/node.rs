use kayak_ui::node::{NodeBuilder, WrappedIndex};
use kayak_ui::on_change::OnChange;
use kayak_ui::styles::edge::Edge;
use kayak_ui::styles::style::{KStyle, StyleProp};
use kayak_ui::styles::units::{FloatBits, KPositionType, LayoutType, Units, ONE_BITS};
use kayak_ui::widget::WidgetParam;

fn px(v: u32) -> Units {
    Units::Pixels(FloatBits(v))
}

#[test]
fn node_properties_default_without_styles() {
    assert_eq!(WrappedIndex::layout_type(None), Some(LayoutType::Column));
    assert_eq!(WrappedIndex::position_type(None), Some(KPositionType::ParentDirected));
    assert_eq!(WrappedIndex::width(None), Some(Units::Stretch(FloatBits(ONE_BITS))));
    assert_eq!(WrappedIndex::height(None), Some(Units::Stretch(FloatBits(ONE_BITS))));
    assert_eq!(WrappedIndex::min_width(None), Some(Units::Auto));
    assert_eq!(WrappedIndex::left(None), Some(Units::Auto));
    assert_eq!(WrappedIndex::row_index(None), Some(0));
    assert_eq!(WrappedIndex::col_span(None), Some(1));
    assert_eq!(WrappedIndex::grid_rows(None), Some(vec![]));
}

#[test]
fn node_properties_from_styles() {
    let styles = KStyle {
        layout_type: StyleProp::Value(LayoutType::Row),
        width: StyleProp::Value(px(100)),
        min_width: StyleProp::Default,
        left: StyleProp::Default,
        right: StyleProp::Value(px(3)),
        top: StyleProp::Unset,
        offset: StyleProp::Value(Edge::new(px(1), px(2), px(4), px(8))),
        padding_left: StyleProp::Default,
        padding: StyleProp::Value(Edge::all(px(6))),
        border: StyleProp::Value(Edge::new(FloatBits(1), FloatBits(2), FloatBits(3), FloatBits(4))),
        col_index: StyleProp::Value(2),
        row_span: StyleProp::Value(3),
        grid_cols: StyleProp::Value(vec![px(10), Units::Auto]),
        ..KStyle::default()
    };
    let s = Some(&styles);
    assert_eq!(WrappedIndex::layout_type(s), Some(LayoutType::Row));
    assert_eq!(WrappedIndex::width(s), Some(px(100)));
    assert_eq!(WrappedIndex::min_width(s), Some(px(0)));
    // A default side falls back to the offset edge; a set side wins; an unset side is automatic.
    assert_eq!(WrappedIndex::left(s), Some(px(8)));
    assert_eq!(WrappedIndex::right(s), Some(px(3)));
    assert_eq!(WrappedIndex::top(s), Some(Units::Auto));
    assert_eq!(WrappedIndex::child_left(s), Some(px(6)));
    assert_eq!(WrappedIndex::border_top(s), Some(px(1)));
    assert_eq!(WrappedIndex::border_left(s), Some(px(4)));
    assert_eq!(WrappedIndex::col_index(s), Some(2));
    assert_eq!(WrappedIndex::row_span(s), Some(3));
    assert_eq!(WrappedIndex::grid_cols(s), Some(vec![px(10), Units::Auto]));
}

#[test]
fn on_change_initializes_once() {
    let mut on_change = OnChange::new();
    on_change.set_value(String::from("hello"));
    let first = on_change.try_call();
    assert!(first.invoked);
    assert!(first.initialize);
    assert_eq!(first.value, "hello");
    on_change.set_value(String::from("world"));
    let second = on_change.try_call();
    assert!(!second.initialize);
    assert_eq!(second.value, "world");
}

fn unchanged() -> WidgetParam {
    WidgetParam {
        mounted: false,
        same_name: Some(true),
        same_style: Some(true),
        same_computed_style: None,
        same_children: Some(true),
        same_props: Some(true),
        has_current_state: false,
        has_previous_state: false,
        same_state: None,
    }
}

#[test]
fn widget_change_detection() {
    assert!(!unchanged().has_changed());
    assert!(WidgetParam { mounted: true, ..unchanged() }.has_changed());
    assert!(WidgetParam { same_props: Some(false), ..unchanged() }.has_changed());
    assert!(WidgetParam { has_current_state: true, ..unchanged() }.has_changed());
    assert!(!WidgetParam { has_current_state: true, has_previous_state: true, same_state: Some(true), ..unchanged() }
        .has_changed());
    assert!(WidgetParam { has_current_state: true, has_previous_state: true, same_state: Some(false), ..unchanged() }
        .has_changed());
}

#[test]
fn node_builder_builds() {
    let empty = NodeBuilder::<u8>::empty().build();
    assert!(empty.children.is_empty());
    assert_eq!(empty.id, WrappedIndex(0));
    assert_eq!(empty.primitive, 0);
    assert_eq!(empty.z, FloatBits(0));
    let styles = KStyle { width: StyleProp::Value(px(4)), ..KStyle::default() };
    let node = NodeBuilder::<u8>::new(WrappedIndex(3), styles)
        .with_children(vec![WrappedIndex(4)])
        .with_children(vec![WrappedIndex(5), WrappedIndex(6)])
        .with_id(WrappedIndex(7))
        .with_primitive(9)
        .with_styles(KStyle::default(), Some(KStyle::default()))
        .build();
    assert_eq!(node.children, vec![WrappedIndex(4), WrappedIndex(5), WrappedIndex(6)]);
    assert_eq!(node.id, WrappedIndex(7));
    assert_eq!(node.primitive, 9);
    assert!(node.raw_styles.is_some());
    assert_eq!(node.resolved_styles.width, StyleProp::Unset);
}
