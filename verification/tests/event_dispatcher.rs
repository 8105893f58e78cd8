use kayak_ui::event_dispatcher::{
    EventDispatcher, EventDispatcherContext, EventKind, EventMap, KeyboardEvent, KeyboardEventType, KeyboardModifiers,
};
use kayak_ui::focus_tree::FocusTree;
use kayak_ui::input_event::{InputEvent, KeyCode};
use kayak_ui::node::WrappedIndex;
use kayak_ui::styles::render_command::RenderCommand;
use kayak_ui::styles::style::{KStyle, StyleProp};
use kayak_ui::styles::units::FloatBits;
use kayak_ui::tree::Tree;

fn focus_tree_of_three() -> FocusTree {
    let mut tree = Tree::default();
    tree.add(WrappedIndex(1), None);
    tree.add(WrappedIndex(2), Some(WrappedIndex(1)));
    tree.add(WrappedIndex(3), Some(WrappedIndex(1)));
    let mut focus_tree = FocusTree::default();
    focus_tree.add(WrappedIndex(1), &tree);
    focus_tree.add(WrappedIndex(2), &tree);
    focus_tree.add(WrappedIndex(3), &tree);
    focus_tree
}

#[test]
fn cursor_capture_and_release() {
    let mut dispatcher = EventDispatcher::new();
    assert_eq!(None, dispatcher.capture_cursor(4));
    assert_eq!(Some(WrappedIndex(4)), dispatcher.capture_cursor(5));
    assert!(!dispatcher.release_cursor(4));
    assert_eq!(Some(WrappedIndex(5)), dispatcher.cursor_capture);
    assert!(dispatcher.release_cursor(5));
    assert_eq!(None, dispatcher.cursor_capture);
    dispatcher.capture_cursor(6);
    assert_eq!(Some(WrappedIndex(6)), dispatcher.force_release_cursor());
    assert_eq!(None, dispatcher.force_release_cursor());
}

#[test]
fn context_capture_merges_back() {
    let mut context = EventDispatcherContext::new(None);
    assert_eq!(None, context.capture_cursor(9));
    assert!(!context.release_cursor(8));
    let mut dispatcher = EventDispatcher::new();
    context.merge(&mut dispatcher);
    assert_eq!(Some(WrappedIndex(9)), dispatcher.cursor_capture);

    let mut context = EventDispatcherContext::new(Some(WrappedIndex(9)));
    assert!(context.release_cursor(9));
    assert_eq!(None, context.force_release_cursor());
}

#[test]
fn merge_keeps_own_captor() {
    let mut dispatcher = EventDispatcher::new();
    dispatcher.capture_cursor(1);
    let mut other = EventDispatcher::new();
    other.capture_cursor(2);
    other.hovered = Some(WrappedIndex(3));
    other.is_mouse_pressed = true;
    dispatcher.merge(other);
    assert_eq!(Some(WrappedIndex(1)), dispatcher.cursor_capture);
    assert_eq!(Some(WrappedIndex(3)), dispatcher.hovered());
    assert!(dispatcher.is_mouse_pressed());
}

#[test]
fn cursor_queries() {
    let mut dispatcher = EventDispatcher::new();
    assert!(!dispatcher.contains_cursor());
    assert!(!dispatcher.wants_cursor());
    assert!(!dispatcher.has_cursor());
    dispatcher.has_cursor = Some(WrappedIndex(2));
    assert!(dispatcher.wants_cursor());
    assert!(dispatcher.has_cursor());
    dispatcher.contains_cursor = Some(true);
    assert!(dispatcher.contains_cursor());
}

#[test]
fn event_map_records_kinds() {
    let mut events = EventMap::new();
    assert!(!events.contains_event(WrappedIndex(1), EventKind::Click));
    assert!(events.insert_event(WrappedIndex(1), EventKind::Click));
    assert!(!events.insert_event(WrappedIndex(1), EventKind::Click));
    assert!(events.contains_event(WrappedIndex(1), EventKind::Click));
    assert!(!events.contains_event(WrappedIndex(1), EventKind::Hover));
    assert!(!events.contains_event(WrappedIndex(2), EventKind::Click));
}

#[test]
fn maintain_keeps_mouse_down_while_pressed_and_mouse_in_until_out() {
    let mut dispatcher = EventDispatcher::new();
    let mut first = EventMap::new();
    first.insert_event(WrappedIndex(1), EventKind::MouseDown);
    first.insert_event(WrappedIndex(2), EventKind::MouseIn);
    first.insert_event(WrappedIndex(3), EventKind::MouseIn);
    dispatcher.maintain_events(first);

    dispatcher.is_mouse_pressed = true;
    let mut second = EventMap::new();
    second.insert_event(WrappedIndex(3), EventKind::MouseOut);
    dispatcher.maintain_events(second);
    let previous = &dispatcher.previous_events;
    assert!(previous.contains_event(WrappedIndex(1), EventKind::MouseDown));
    assert!(previous.contains_event(WrappedIndex(2), EventKind::MouseIn));
    assert!(!previous.contains_event(WrappedIndex(3), EventKind::MouseIn));
    assert!(previous.contains_event(WrappedIndex(3), EventKind::MouseOut));

    dispatcher.is_mouse_pressed = false;
    dispatcher.maintain_events(EventMap::new());
    assert!(!dispatcher.previous_events.contains_event(WrappedIndex(1), EventKind::MouseDown));
    assert!(dispatcher.previous_events.contains_event(WrappedIndex(2), EventKind::MouseIn));
}

#[test]
fn keyboard_events_go_to_focus() {
    let focus_tree = focus_tree_of_three();
    let mut dispatcher = EventDispatcher::new();
    let events = dispatcher.process_keyboard_event(
        &InputEvent::Keyboard { key: KeyCode::ShiftLeft, is_pressed: true },
        &focus_tree,
    );
    let shift = KeyboardModifiers { is_shift_pressed: true, ..KeyboardModifiers::default() };
    assert_eq!(
        vec![(1, KeyboardEventType::KeyDown(KeyboardEvent { key: KeyCode::ShiftLeft, modifiers: shift }))],
        events
    );
    assert!(dispatcher.keyboard_modifiers.is_shift_pressed);
    let events = dispatcher.process_keyboard_event(&InputEvent::CharEvent { c: 'x' }, &focus_tree);
    assert_eq!(vec![(1, KeyboardEventType::CharInput { c: 'x' })], events);
    let events = dispatcher.process_keyboard_event(
        &InputEvent::Keyboard { key: KeyCode::ShiftRight, is_pressed: false },
        &focus_tree,
    );
    assert_eq!(
        vec![(
            1,
            KeyboardEventType::KeyUp(KeyboardEvent { key: KeyCode::ShiftRight, modifiers: KeyboardModifiers::default() })
        )],
        events
    );
    assert!(!dispatcher.keyboard_modifiers.is_shift_pressed);
    let events = dispatcher.process_keyboard_event(&InputEvent::MouseLeftPress, &focus_tree);
    assert!(events.is_empty());
    let empty = FocusTree::default();
    let events = dispatcher.process_keyboard_event(&InputEvent::CharEvent { c: 'x' }, &empty);
    assert!(events.is_empty());
}

#[test]
fn tab_moves_focus_and_blurs() {
    let mut focus_tree = focus_tree_of_three();
    let events = EventDispatcher::execute_default_tab(&mut focus_tree, false);
    assert_eq!(vec![(2, EventKind::Focus), (1, EventKind::Blur)], events);
    assert_eq!(Some(2), focus_tree.current());
    let events = EventDispatcher::execute_default_tab(&mut focus_tree, true);
    assert_eq!(vec![(1, EventKind::Focus), (2, EventKind::Blur)], events);
    let mut single = FocusTree::default();
    let mut tree = Tree::default();
    tree.add(WrappedIndex(4), None);
    single.add(WrappedIndex(4), &tree);
    let events = EventDispatcher::execute_default_tab(&mut single, false);
    assert_eq!(vec![(4, EventKind::Focus)], events);
}

#[test]
fn focus_match_and_blur_on_press() {
    let mut focus_tree = focus_tree_of_three();
    let events = EventDispatcher::focus_best_match(&mut focus_tree, WrappedIndex(3));
    assert_eq!(vec![(3, EventKind::Focus), (1, EventKind::Blur)], events);
    assert_eq!(Some(3), focus_tree.current());
    let blur = EventDispatcher::blur_on_press(&mut focus_tree, true, &[InputEvent::MouseLeftPress]);
    assert_eq!(None, blur);
    let blur = EventDispatcher::blur_on_press(&mut focus_tree, false, &[InputEvent::MouseLeftRelease]);
    assert_eq!(None, blur);
    let blur = EventDispatcher::blur_on_press(&mut focus_tree, false, &[InputEvent::MouseLeftPress]);
    assert_eq!(Some((3, EventKind::Blur)), blur);
    assert_eq!(Some(1), focus_tree.current());
}

#[test]
fn render_command_decides_cursor_containment() {
    let mut style = KStyle::default();
    assert!(!EventDispatcher::can_contain_cursor(&style));
    style.render_command = StyleProp::Value(RenderCommand::Layout);
    assert!(!EventDispatcher::can_contain_cursor(&style));
    style.render_command = StyleProp::Value(RenderCommand::Quad);
    assert!(EventDispatcher::can_contain_cursor(&style));
}

#[test]
fn event_stream_cursor_state() {
    let mut dispatcher = EventDispatcher::new();
    dispatcher.hovered = Some(WrappedIndex(5));
    dispatcher.has_cursor = Some(WrappedIndex(6));
    let p1 = (FloatBits(1), FloatBits(2));
    let p2 = (FloatBits(3), FloatBits(4));
    let old = dispatcher.begin_event_stream(&[
        InputEvent::MouseMoved(p1),
        InputEvent::MouseLeftRelease,
        InputEvent::MouseMoved(p2),
    ]);
    assert_eq!((Some(WrappedIndex(5)), None, None), old);
    assert_eq!(None, dispatcher.hovered());
    assert_eq!(None, dispatcher.has_cursor);
    let cursor = dispatcher.get_cursor_event(p1);
    assert!(!cursor.pressed);
    dispatcher.finish_event_stream(old.0, old.1, old.2);
    assert_eq!(p1, dispatcher.current_mouse_position());
    assert_eq!(Some(WrappedIndex(5)), dispatcher.hovered());

    dispatcher.begin_event_stream(&[InputEvent::MouseLeftPress]);
    let cursor = dispatcher.get_cursor_event(p2);
    assert!(cursor.pressed && cursor.just_pressed && !cursor.just_released);
    dispatcher.finish_event_stream(None, None, None);
    assert!(dispatcher.is_mouse_pressed());
}

#[test]
fn events_propagate_to_parents() {
    let mut tree = Tree::default();
    tree.add(WrappedIndex(1), None);
    tree.add(WrappedIndex(2), Some(WrappedIndex(1)));
    assert_eq!(Some(WrappedIndex(1)), EventDispatcher::propagation_target(&tree, WrappedIndex(2), true));
    assert_eq!(None, EventDispatcher::propagation_target(&tree, WrappedIndex(2), false));
    assert_eq!(None, EventDispatcher::propagation_target(&tree, WrappedIndex(1), true));
}

#[test]
fn default_action_of_tab() {
    let mut focus_tree = focus_tree_of_three();
    focus_tree.focus(2);
    let tab = KeyboardEvent { key: KeyCode::Tab, modifiers: KeyboardModifiers::default() };
    let events = EventDispatcher::execute_default(KeyboardEventType::KeyDown(tab), &mut focus_tree);
    assert_eq!(events, vec![(3, EventKind::Focus), (2, EventKind::Blur)]);
    let shift_tab =
        KeyboardEvent { key: KeyCode::Tab, modifiers: KeyboardModifiers { is_shift_pressed: true, ..KeyboardModifiers::default() } };
    let events = EventDispatcher::execute_default(KeyboardEventType::KeyDown(shift_tab), &mut focus_tree);
    assert_eq!(events, vec![(2, EventKind::Focus), (3, EventKind::Blur)]);
    let events = EventDispatcher::execute_default(KeyboardEventType::KeyUp(tab), &mut focus_tree);
    assert!(events.is_empty());
    let events = EventDispatcher::execute_default(KeyboardEventType::CharInput { c: 'a' }, &mut focus_tree);
    assert!(events.is_empty());
    assert_eq!(focus_tree.current(), Some(2));
}
