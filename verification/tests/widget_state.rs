use kayak_ui::widget_state::WidgetState;

#[test]
fn widget_state_adds_once() {
    let mut ws = WidgetState::new();
    assert_eq!(ws.get(1), None);
    assert_eq!(ws.add(1, 10), 10);
    assert_eq!(ws.add(1, 11), 10);
    assert_eq!(ws.get(1), Some(10));
    assert_eq!(ws.get_widget_entity(10), Some(1));
    assert_eq!(ws.get_widget_entity(11), None);
}

#[test]
fn widget_state_removes_both_ways() {
    let mut ws = WidgetState::new();
    ws.add(1, 10);
    ws.add(2, 20);
    assert_eq!(ws.remove(1), Some(10));
    assert_eq!(ws.remove(1), None);
    assert_eq!(ws.get(1), None);
    assert_eq!(ws.get_widget_entity(10), None);
    assert_eq!(ws.get(2), Some(20));
    assert_eq!(ws.get_widget_entity(20), Some(2));
}
