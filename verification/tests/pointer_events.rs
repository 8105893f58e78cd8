use kayak_ui::cursor::{CursorEvent, PointerEvents, ScrollEvent, ScrollUnit};
use kayak_ui::event_dispatcher::{EventDispatcher, EventKind, EventMap, LayoutHit, PointerEventType};
use kayak_ui::input_event::{InputEvent, KeyCode};
use kayak_ui::node::WrappedIndex;
use kayak_ui::styles::render_command::RenderCommand;
use kayak_ui::styles::style::{KStyle, StyleProp};
use kayak_ui::styles::units::FloatBits;

fn pos(x: u32, y: u32) -> (FloatBits, FloatBits) {
    (FloatBits(x), FloatBits(y))
}

fn quad_styles() -> KStyle {
    KStyle { render_command: StyleProp::Value(RenderCommand::Quad), ..KStyle::default() }
}

fn hit(contains_current: bool, contains_event: bool) -> Option<LayoutHit> {
    Some(LayoutHit { contains_current, contains_event })
}

fn cursor(position: (FloatBits, FloatBits)) -> CursorEvent {
    CursorEvent { pressed: false, just_pressed: false, just_released: false, position }
}

#[test]
fn mouse_move_onto_widget() {
    let mut d = EventDispatcher::new();
    let styles = quad_styles();
    let (sent, candidates) = d.process_pointer_events(
        &InputEvent::MouseMoved(pos(5, 5)),
        WrappedIndex(1),
        hit(false, true),
        Some(&styles),
        true,
        false,
    );
    assert!(sent.is_empty());
    assert_eq!(
        candidates,
        vec![PointerEventType::MouseIn(cursor(pos(5, 5))), PointerEventType::Hover(cursor(pos(5, 5)))]
    );
    assert!(d.contains_cursor());
    assert!(d.wants_cursor());
}

#[test]
fn mouse_move_off_widget() {
    let mut d = EventDispatcher::new();
    let (sent, candidates) =
        d.process_pointer_events(&InputEvent::MouseMoved(pos(9, 9)), WrappedIndex(1), hit(true, false), None, false, false);
    assert_eq!(sent, vec![(1, PointerEventType::MouseOut(cursor(pos(9, 9))))]);
    assert!(candidates.is_empty());
    // Without styles or focusability the cursor state stays unknown.
    assert!(d.contains_cursor.is_none());
    assert!(d.wants_cursor.is_none());
}

#[test]
fn widget_without_layout_gets_nothing() {
    let mut d = EventDispatcher::new();
    let (sent, candidates) =
        d.process_pointer_events(&InputEvent::MouseLeftPress, WrappedIndex(1), None, None, true, true);
    assert!(sent.is_empty());
    assert!(candidates.is_empty());
}

#[test]
fn press_gives_mouse_down_focus_and_cursor() {
    let mut d = EventDispatcher::new();
    let styles = quad_styles();
    let (sent, candidates) =
        d.process_pointer_events(&InputEvent::MouseLeftPress, WrappedIndex(4), hit(true, true), Some(&styles), true, false);
    assert!(sent.is_empty());
    assert_eq!(candidates, vec![PointerEventType::MouseDown(cursor(pos(0, 0))), PointerEventType::Focus]);
    assert!(d.has_cursor());
    assert_eq!(d.has_cursor, Some(WrappedIndex(4)));
    // A press outside the layout does nothing.
    let mut d = EventDispatcher::new();
    let (_, candidates) =
        d.process_pointer_events(&InputEvent::MouseLeftPress, WrappedIndex(4), hit(false, false), Some(&styles), true, false);
    assert!(candidates.is_empty());
    assert!(!d.has_cursor());
}

#[test]
fn release_after_press_clicks() {
    let mut d = EventDispatcher::new();
    let mut previous = EventMap::new();
    previous.insert_event(WrappedIndex(4), EventKind::MouseDown);
    d.previous_events = previous;
    let (_, candidates) =
        d.process_pointer_events(&InputEvent::MouseLeftRelease, WrappedIndex(4), hit(true, true), None, false, false);
    assert_eq!(candidates, vec![PointerEventType::MouseUp(cursor(pos(0, 0))), PointerEventType::Click(cursor(pos(0, 0)))]);
    let (_, candidates) =
        d.process_pointer_events(&InputEvent::MouseLeftRelease, WrappedIndex(5), hit(true, true), None, false, false);
    assert_eq!(candidates, vec![PointerEventType::MouseUp(cursor(pos(0, 0)))]);
}

#[test]
fn scroll_over_widget() {
    let mut d = EventDispatcher::new();
    let event = InputEvent::Scroll { dx: FloatBits(1), dy: FloatBits(2), is_line: true };
    let (_, candidates) = d.process_pointer_events(&event, WrappedIndex(1), hit(true, false), None, false, false);
    assert_eq!(
        candidates,
        vec![PointerEventType::Scroll(ScrollEvent { delta: ScrollUnit::Line { x: FloatBits(1), y: FloatBits(2) } })]
    );
    // A captor gets it wherever the cursor is.
    let (_, candidates) = d.process_pointer_events(&event, WrappedIndex(1), hit(false, false), None, false, true);
    assert_eq!(candidates.len(), 1);
}

#[test]
fn pointer_events_style_routes_events() {
    assert_eq!(EventDispatcher::resolve_pointer_events(None), PointerEvents::All);
    let unset = KStyle::default();
    assert_eq!(EventDispatcher::resolve_pointer_events(Some(&unset)), PointerEvents::All);
    let blocked = KStyle { pointer_events: StyleProp::Value(PointerEvents::Blocked), ..KStyle::default() };
    assert_eq!(EventDispatcher::resolve_pointer_events(Some(&blocked)), PointerEvents::Blocked);
    let events = vec![InputEvent::MouseLeftPress];
    let hits = vec![hit(true, true)];
    let mut d = EventDispatcher::new();
    let (_, candidates, enter) =
        d.process_widget_pointer_events(&events, &hits, WrappedIndex(1), Some(&blocked), false, false);
    assert!(candidates.is_empty());
    assert!(!enter);
    let self_only = KStyle { pointer_events: StyleProp::Value(PointerEvents::SelfOnly), ..KStyle::default() };
    let (_, candidates, enter) =
        d.process_widget_pointer_events(&events, &hits, WrappedIndex(1), Some(&self_only), false, false);
    assert_eq!(candidates.len(), 1);
    assert!(!enter);
    let children_only = KStyle { pointer_events: StyleProp::Value(PointerEvents::ChildrenOnly), ..KStyle::default() };
    let (_, candidates, enter) =
        d.process_widget_pointer_events(&events, &hits, WrappedIndex(1), Some(&children_only), false, false);
    assert!(candidates.is_empty());
    assert!(enter);
    // Keyboard events alone never stop the descent.
    let keys = vec![InputEvent::Keyboard { key: KeyCode::Tab, is_pressed: true }];
    let (sent, candidates, enter) =
        d.process_widget_pointer_events(&keys, &[None], WrappedIndex(1), Some(&blocked), false, false);
    assert!(sent.is_empty() && candidates.is_empty());
    assert!(enter);
}

#[test]
fn widget_processes_each_mouse_event() {
    let mut d = EventDispatcher::new();
    let events = vec![InputEvent::MouseMoved(pos(3, 3)), InputEvent::MouseLeftPress, InputEvent::CharEvent { c: 'a' }];
    let hits = vec![hit(false, true), hit(false, false), None];
    let (sent, candidates, enter) = d.process_widget_pointer_events(&events, &hits, WrappedIndex(2), None, false, false);
    assert!(sent.is_empty());
    assert_eq!(
        candidates,
        vec![PointerEventType::MouseIn(cursor(pos(3, 3))), PointerEventType::Hover(cursor(pos(3, 3)))]
    );
    assert!(enter);
}
