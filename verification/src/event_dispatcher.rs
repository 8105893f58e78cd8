use std::collections::HashMap;
use vstd::prelude::*;

use crate::cursor::{CursorEvent, PointerEvents, ScrollEvent, ScrollUnit};
use crate::focus_tree::FocusTree;
use crate::input_event::{category_of, InputEvent, InputEventCategory, KeyCode};
use crate::node::WrappedIndex;
use crate::styles::render_command::RenderCommand;
use crate::styles::style::{KStyle, StyleProp};
use crate::styles::units::FloatBits;
use crate::tree::Tree;

verus! {

broadcast use vstd::std_specs::hash::group_hash_axioms;

/// The kind of an event, without its payload.
#[derive(Debug, Clone, Copy, PartialEq, Eq, Hash, Structural)]
pub enum EventKind {
    Click,
    Hover,
    MouseIn,
    MouseOut,
    MouseDown,
    MouseUp,
    Scroll,
    Focus,
    Blur,
    CharInput,
    KeyUp,
    KeyDown,
}

/// The state of the keyboard modifier keys.
#[derive(Debug, Default, Clone, Copy, PartialEq, Eq, Structural)]
pub struct KeyboardModifiers {
    pub is_ctrl_pressed: bool,
    pub is_shift_pressed: bool,
    pub is_alt_pressed: bool,
    pub is_meta_pressed: bool,
}

/// A key event: the key, and the modifier keys held.
#[derive(Debug, Clone, Copy, PartialEq, Eq, Structural)]
pub struct KeyboardEvent {
    pub key: KeyCode,
    pub modifiers: KeyboardModifiers,
}

/// A keyboard event as the focused widget receives it.
#[derive(Debug, Clone, Copy, PartialEq, Eq, Structural)]
pub enum KeyboardEventType {
    /// A character was typed.
    CharInput { c: char },
    /// A key was pressed.
    KeyDown(KeyboardEvent),
    /// A key was released.
    KeyUp(KeyboardEvent),
}

/// The kinds of events recorded for each widget.
pub struct EventMap {
    pub map: HashMap<u64, Vec<EventKind>>,
}

impl EventMap {
    /// The set of event kinds recorded for each widget that has any.
    pub closed spec fn view(self) -> Map<u64, Set<EventKind>> {
        Map::new(|k: u64| self.map@.contains_key(k), |k: u64| self.map@[k]@.to_set())
    }

    /// An empty map.
    pub fn new() -> (r: EventMap)
        ensures
            r.view() == Map::<u64, Set<EventKind>>::empty(),
    {
        let r = EventMap { map: HashMap::new() };
        assert(r.view() =~= Map::<u64, Set<EventKind>>::empty());
        r
    }

    /// Whether `kind` is recorded for `widget_id`.
    pub fn contains_event(&self, widget_id: WrappedIndex, kind: EventKind) -> (r: bool)
        ensures
            r == (self.view().contains_key(widget_id.0) && self.view()[widget_id.0].contains(kind)),
    {
        match self.map.get(&widget_id.0) {
            Some(kinds) => {
                let mut i: usize = 0;
                while i < kinds.len()
                    invariant
                        i <= kinds@.len(),
                        self.map@.contains_key(widget_id.0),
                        kinds@ == self.map@[widget_id.0]@,
                        forall|j: int| 0 <= j < i ==> kinds@[j] != kind,
                    decreases kinds@.len() - i,
                {
                    if kinds[i] == kind {
                        assert(kinds@.to_set().contains(kinds@[i as int]));
                        return true;
                    }
                    i += 1;
                }
                false
            },
            None => false,
        }
    }

    /// Records `kind` for `widget_id`; returns whether it was not recorded before.
    pub fn insert_event(&mut self, widget_id: WrappedIndex, kind: EventKind) -> (r: bool)
        ensures
            final(self).view() == old(self).view().insert(
                widget_id.0,
                (if old(self).view().contains_key(widget_id.0) {
                    old(self).view()[widget_id.0]
                } else {
                    Set::empty()
                }).insert(kind),
            ),
            r == !(old(self).view().contains_key(widget_id.0) && old(self).view()[widget_id.0].contains(kind)),
    {
        let present = self.contains_event(widget_id, kind);
        let mut kinds = match self.map.remove(&widget_id.0) {
            Some(v) => v,
            None => Vec::new(),
        };
        let ghost before = kinds@;
        if !present {
            kinds.push(kind);
        }
        proof {
            if present {
                assert(before.to_set() =~= before.to_set().insert(kind));
            } else {
                assert(kinds@.to_set() =~= before.to_set().insert(kind)) by {
                    assert forall|e: EventKind| kinds@.to_set().contains(e) implies before.to_set().insert(kind).contains(e) by {
                        let j = choose|j: int| 0 <= j < kinds@.len() && kinds@[j] == e;
                        if j < before.len() {
                            assert(before[j] == e);
                        }
                    }
                    assert forall|e: EventKind| before.to_set().insert(kind).contains(e) implies kinds@.to_set().contains(e) by {
                        if e == kind {
                            assert(kinds@[before.len() as int] == e);
                        } else {
                            let j = choose|j: int| 0 <= j < before.len() && before[j] == e;
                            assert(kinds@[j] == e);
                        }
                    }
                }
            }
            if !old(self).map@.contains_key(widget_id.0) {
                assert(before.to_set() =~= Set::empty());
            }
        }
        self.map.insert(widget_id.0, kinds);
        proof {
            assert(self.view() =~= old(self).view().insert(
                widget_id.0,
                (if old(self).view().contains_key(widget_id.0) {
                    old(self).view()[widget_id.0]
                } else {
                    Set::empty()
                }).insert(kind),
            ));
        }
        !present
    }
}

/// The kinds of `m` recorded for `k` (none when `k` has no entry).
pub open spec fn kinds_of(m: Map<u64, Set<EventKind>>, k: u64) -> Set<EventKind> {
    if m.contains_key(k) {
        m[k]
    } else {
        Set::empty()
    }
}

/// The event kinds kept alive for widget `k` from the previous update `prev` into the next
/// one `next`: a mouse-down while the mouse is still pressed, and a mouse-in while no
/// mouse-out arrived for it.
pub open spec fn kept_kinds(
    prev: Map<u64, Set<EventKind>>,
    next: Map<u64, Set<EventKind>>,
    pressed: bool,
    k: u64,
) -> Set<EventKind> {
    (if pressed && kinds_of(prev, k).contains(EventKind::MouseDown) {
        Set::empty().insert(EventKind::MouseDown)
    } else {
        Set::empty()
    }) + (if kinds_of(prev, k).contains(EventKind::MouseIn) && !kinds_of(next, k).contains(
        EventKind::MouseOut,
    ) {
        Set::empty().insert(EventKind::MouseIn)
    } else {
        Set::empty()
    })
}

/// `next` with the kinds kept alive from `prev` added, for the widgets in `done`.
pub open spec fn maintained_for(
    prev: Map<u64, Set<EventKind>>,
    next: Map<u64, Set<EventKind>>,
    pressed: bool,
    done: Set<u64>,
) -> Map<u64, Set<EventKind>> {
    Map::new(
        |k: u64| next.contains_key(k) || (done.contains(k) && !kept_kinds(prev, next, pressed, k).is_empty()),
        |k: u64|
            kinds_of(next, k) + (if done.contains(k) {
                kept_kinds(prev, next, pressed, k)
            } else {
                Set::empty()
            }),
    )
}

/// `next` with the kinds kept alive from `prev` added, for every widget.
pub open spec fn maintained(
    prev: Map<u64, Set<EventKind>>,
    next: Map<u64, Set<EventKind>>,
    pressed: bool,
) -> Map<u64, Set<EventKind>> {
    maintained_for(prev, next, pressed, prev.dom())
}

/// Tracks the mouse, the keyboard modifiers and which widget holds or captures the cursor,
/// and the events kept alive between event updates.
pub struct EventDispatcher {
    pub is_mouse_pressed: bool,
    pub next_mouse_pressed: bool,
    pub current_mouse_position: (FloatBits, FloatBits),
    pub next_mouse_position: (FloatBits, FloatBits),
    pub previous_events: EventMap,
    pub keyboard_modifiers: KeyboardModifiers,
    pub contains_cursor: Option<bool>,
    pub wants_cursor: Option<bool>,
    pub has_cursor: Option<WrappedIndex>,
    pub cursor_capture: Option<WrappedIndex>,
    pub hovered: Option<WrappedIndex>,
}

/// The cursor captor of an event handler's run; merged back into the dispatcher afterwards.
pub struct EventDispatcherContext {
    pub cursor_capture: Option<WrappedIndex>,
}

impl EventDispatcher {
    /// The events recorded in the last update.
    pub closed spec fn previous_events_view(self) -> Map<u64, Set<EventKind>> {
        self.previous_events.view()
    }

    /// Whether the mouse was pressed at the last update.
    pub closed spec fn mouse_pressed_view(self) -> bool {
        self.is_mouse_pressed
    }

    /// Replaces the recorded events with `next_events`, keeping alive the events that must
    /// persist without firing again: a mouse-down while the mouse stays pressed, and a
    /// mouse-in while no mouse-out arrived for the widget.
    pub fn maintain_events(&mut self, next_events: EventMap)
        ensures
            final(self).previous_events_view() == maintained(
                old(self).previous_events_view(),
                next_events.view(),
                old(self).mouse_pressed_view(),
            ),
            final(self).mouse_pressed_view() == old(self).mouse_pressed_view(),
    {
        let ghost prev = self.previous_events.view();
        let ghost n0 = next_events.view();
        let pressed = self.is_mouse_pressed;
        let mut next = next_events;
        assert forall|k: u64| #[trigger] n0.contains_key(k) implies kinds_of(n0, k) + Set::empty() == n0[k] by {
            assert(kinds_of(n0, k) + Set::empty() =~= n0[k]);
        }
        assert(next.view() =~= maintained_for(prev, n0, pressed, Set::empty()));
        let ghost mut done_keys: Set<u64> = Set::empty();
        for k in it: self.previous_events.map.keys()
            invariant
                prev == self.previous_events.view(),
                pressed == self.is_mouse_pressed,
                it.seq().unref().no_duplicates(),
                it.seq().unref().to_set() == prev.dom(),
                done_keys == it.seq().take(it.index() as int).unref().to_set(),
                it.index() == it.seq().len() ==> done_keys == prev.dom(),
                next.view() == maintained_for(prev, n0, pressed, done_keys),
        {
            let ghost done = it.seq().take(it.index() as int).unref().to_set();
            let ghost cur = next.view();
            let index = WrappedIndex(*k);
            proof {
                let i = it.index() as int;
                assert(it.seq()[i] == k);
                assert(!done.contains(*k)) by {
                    if done.contains(*k) {
                        let j = choose|j: int| 0 <= j < i && it.seq().take(i).unref()[j] == *k;
                        assert(it.seq().unref()[j] == it.seq().unref()[i]);
                    }
                }
                assert(kinds_of(cur, *k) =~= kinds_of(n0, *k));
            }
            if pressed && self.previous_events.contains_event(index, EventKind::MouseDown) {
                next.insert_event(index, EventKind::MouseDown);
            }
            let ghost mid = next.view();
            proof {
                assert(kinds_of(mid, *k).contains(EventKind::MouseOut) == kinds_of(n0, *k).contains(EventKind::MouseOut));
            }
            if self.previous_events.contains_event(index, EventKind::MouseIn) && !next.contains_event(
                index,
                EventKind::MouseOut,
            ) {
                next.insert_event(index, EventKind::MouseIn);
            }
            proof {
                let i = it.index() as int;
                let done2 = it.seq().take(i + 1).unref().to_set();
                assert(it.seq().take(i + 1).unref() =~= it.seq().take(i).unref().push(*k));
                it.seq().take(i).unref().lemma_push_to_set_commute(*k);
                assert(done2 =~= done.insert(*k));
                let target = maintained_for(prev, n0, pressed, done2);
                assert(kinds_of(next.view(), *k) =~= kinds_of(n0, *k) + kept_kinds(prev, n0, pressed, *k));
                assert forall|j: u64| #[trigger] target.contains_key(j) implies next.view().contains_key(j) && next.view()[j] == target[j] by {
                    if j != *k {
                        assert(kinds_of(next.view(), j) == kinds_of(cur, j));
                    } else {
                        assert(kinds_of(next.view(), j) =~= target[j]);
                    }
                }
                assert forall|j: u64| #[trigger] next.view().contains_key(j) implies target.contains_key(j) by {
                    if j != *k {
                        assert(cur.contains_key(j));
                    } else {
                        if !n0.contains_key(j) {
                            assert(!kept_kinds(prev, n0, pressed, j).is_empty()) by {
                                assert(kept_kinds(prev, n0, pressed, j) =~= kinds_of(next.view(), j));
                                if pressed && kinds_of(prev, j).contains(EventKind::MouseDown) {
                                    assert(kinds_of(next.view(), j).contains(EventKind::MouseDown));
                                } else {
                                    assert(kinds_of(next.view(), j).contains(EventKind::MouseIn));
                                }
                            }
                        }
                    }
                }
                assert(next.view() =~= target);
                assert(it.seq().take(it.seq().len() as int) =~= it.seq());
            }
            proof {
                done_keys = done_keys.insert(*k);
            }
        }
        self.previous_events = next;
    }
}

/// The modifiers after `key` was pressed (`is_pressed`) or released.
pub open spec fn modifiers_after(m: KeyboardModifiers, key: KeyCode, is_pressed: bool) -> KeyboardModifiers {
    match key {
        KeyCode::ControlLeft | KeyCode::ControlRight => KeyboardModifiers { is_ctrl_pressed: is_pressed, ..m },
        KeyCode::ShiftLeft | KeyCode::ShiftRight => KeyboardModifiers { is_shift_pressed: is_pressed, ..m },
        KeyCode::AltLeft | KeyCode::AltRight => KeyboardModifiers { is_alt_pressed: is_pressed, ..m },
        KeyCode::SuperLeft | KeyCode::SuperRight => KeyboardModifiers { is_meta_pressed: is_pressed, ..m },
        _ => m,
    }
}

/// Pressing or releasing either Control key makes the Control modifier say whether it is
/// pressed; the other modifiers stay as they were.
pub proof fn lemma_ctrl_key_tracked(m: KeyboardModifiers, key: KeyCode, is_pressed: bool)
    requires
        key == KeyCode::ControlLeft || key == KeyCode::ControlRight,
    ensures
        modifiers_after(m, key, is_pressed).is_ctrl_pressed == is_pressed,
        modifiers_after(m, key, is_pressed).is_shift_pressed == m.is_shift_pressed,
        modifiers_after(m, key, is_pressed).is_alt_pressed == m.is_alt_pressed,
        modifiers_after(m, key, is_pressed).is_meta_pressed == m.is_meta_pressed,
{
}

/// Pressing or releasing either Shift key makes the Shift modifier say whether it is
/// pressed; the other modifiers stay as they were.
pub proof fn lemma_shift_key_tracked(m: KeyboardModifiers, key: KeyCode, is_pressed: bool)
    requires
        key == KeyCode::ShiftLeft || key == KeyCode::ShiftRight,
    ensures
        modifiers_after(m, key, is_pressed).is_shift_pressed == is_pressed,
        modifiers_after(m, key, is_pressed).is_ctrl_pressed == m.is_ctrl_pressed,
        modifiers_after(m, key, is_pressed).is_alt_pressed == m.is_alt_pressed,
        modifiers_after(m, key, is_pressed).is_meta_pressed == m.is_meta_pressed,
{
}

/// Pressing or releasing either Alt key makes the Alt modifier say whether it is pressed;
/// the other modifiers stay as they were.
pub proof fn lemma_alt_key_tracked(m: KeyboardModifiers, key: KeyCode, is_pressed: bool)
    requires
        key == KeyCode::AltLeft || key == KeyCode::AltRight,
    ensures
        modifiers_after(m, key, is_pressed).is_alt_pressed == is_pressed,
        modifiers_after(m, key, is_pressed).is_ctrl_pressed == m.is_ctrl_pressed,
        modifiers_after(m, key, is_pressed).is_shift_pressed == m.is_shift_pressed,
        modifiers_after(m, key, is_pressed).is_meta_pressed == m.is_meta_pressed,
{
}

/// Pressing or releasing either Super key makes the meta modifier say whether it is
/// pressed; the other modifiers stay as they were.
pub proof fn lemma_super_key_tracked(m: KeyboardModifiers, key: KeyCode, is_pressed: bool)
    requires
        key == KeyCode::SuperLeft || key == KeyCode::SuperRight,
    ensures
        modifiers_after(m, key, is_pressed).is_meta_pressed == is_pressed,
        modifiers_after(m, key, is_pressed).is_ctrl_pressed == m.is_ctrl_pressed,
        modifiers_after(m, key, is_pressed).is_shift_pressed == m.is_shift_pressed,
        modifiers_after(m, key, is_pressed).is_alt_pressed == m.is_alt_pressed,
{
}

/// Any other key leaves the modifiers as they were.
pub proof fn lemma_other_key_keeps_modifiers(m: KeyboardModifiers, key: KeyCode, is_pressed: bool)
    requires
        key != KeyCode::ControlLeft,
        key != KeyCode::ControlRight,
        key != KeyCode::ShiftLeft,
        key != KeyCode::ShiftRight,
        key != KeyCode::AltLeft,
        key != KeyCode::AltRight,
        key != KeyCode::SuperLeft,
        key != KeyCode::SuperRight,
    ensures
        modifiers_after(m, key, is_pressed) == m,
{
}

/// `new` is the focus tree `old` after Tab (Shift+Tab when `is_shift_pressed`) moved focus
/// to the next (previous) focusable widget, and `events` the events that the move sends: a
/// focus event for the newly focused widget and, when focus moved away from another widget,
/// a blur event for that widget.
pub open spec fn tab_moved(old: FocusTree, new: FocusTree, is_shift_pressed: bool, events: Seq<(u64, EventKind)>) -> bool {
    let old_focus = focused_id(old);
    let moved = if is_shift_pressed {
        old.tree_view().preorder_prev(old.focus_view())
    } else {
        old.tree_view().preorder_next(old.focus_view())
    };
    &&& new.tree_view() == old.tree_view()
    &&& match moved {
        Some(n) => {
            &&& new.focus_view() == Some(WrappedIndex(n.0))
            &&& events =~= (if old_focus is Some && old_focus != Some(n.0) {
                seq![(n.0, EventKind::Focus), ((old_focus->0), EventKind::Blur)]
            } else {
                seq![(n.0, EventKind::Focus)]
            })
        },
        None => {
            &&& new.focus_view() is None
            &&& events =~= Seq::<(u64, EventKind)>::empty()
        },
    }
}

/// The widget that has focus, by its entity id.
pub open spec fn focused_id(f: FocusTree) -> Option<u64> {
    match f.focus_view() {
        Some(i) => Some(i.0),
        None => None,
    }
}

impl EventDispatcher {
    /// The pressed state of the mouse for the update being built.
    pub closed spec fn next_mouse_pressed_view(self) -> bool {
        self.next_mouse_pressed
    }

    /// The mouse position at the last update.
    pub closed spec fn mouse_position_view(self) -> (FloatBits, FloatBits) {
        self.current_mouse_position
    }

    /// The mouse position for the update being built.
    pub closed spec fn next_mouse_position_view(self) -> (FloatBits, FloatBits) {
        self.next_mouse_position
    }

    /// The state of the keyboard modifiers.
    pub closed spec fn modifiers_view(self) -> KeyboardModifiers {
        self.keyboard_modifiers
    }

    /// Whether the cursor is over a widget that can contain it, if known.
    pub closed spec fn contains_cursor_view(self) -> Option<bool> {
        self.contains_cursor
    }

    /// Whether the cursor is over a widget that wants it, if known.
    pub closed spec fn wants_cursor_view(self) -> Option<bool> {
        self.wants_cursor
    }

    /// The widget that holds the cursor (a press started on it), if any.
    pub closed spec fn has_cursor_view(self) -> Option<WrappedIndex> {
        self.has_cursor
    }

    /// A dispatcher with the mouse released at the origin, no recorded events and no widget
    /// holding, capturing or hovered by the cursor.
    pub fn new() -> (r: EventDispatcher)
        ensures
            !r.mouse_pressed_view(),
            !r.next_mouse_pressed_view(),
            r.mouse_position_view() == (FloatBits(0), FloatBits(0)),
            r.next_mouse_position_view() == (FloatBits(0), FloatBits(0)),
            r.previous_events_view() == Map::<u64, Set<EventKind>>::empty(),
            r.modifiers_view() == (KeyboardModifiers {
                is_ctrl_pressed: false,
                is_shift_pressed: false,
                is_alt_pressed: false,
                is_meta_pressed: false,
            }),
            r.contains_cursor_view() is None,
            r.wants_cursor_view() is None,
            r.has_cursor_view() is None,
            r.cursor_capture is None,
            r.hovered is None,
    {
        EventDispatcher {
            is_mouse_pressed: false,
            next_mouse_pressed: false,
            current_mouse_position: (FloatBits(0), FloatBits(0)),
            next_mouse_position: (FloatBits(0), FloatBits(0)),
            previous_events: EventMap::new(),
            keyboard_modifiers: KeyboardModifiers {
                is_ctrl_pressed: false,
                is_shift_pressed: false,
                is_alt_pressed: false,
                is_meta_pressed: false,
            },
            contains_cursor: None,
            wants_cursor: None,
            has_cursor: None,
            cursor_capture: None,
            hovered: None,
        }
    }

    /// Returns whether the mouse is currently pressed or not
    pub fn is_mouse_pressed(&self) -> (r: bool)
        ensures
            r == self.mouse_pressed_view(),
    {
        self.is_mouse_pressed
    }

    /// Gets the current mouse position (since last mouse event)
    pub fn current_mouse_position(&self) -> (r: (FloatBits, FloatBits))
        ensures
            r == self.mouse_position_view(),
    {
        self.current_mouse_position
    }

    /// Captures all cursor events and instead makes the given index the target; returns the
    /// previous captor.
    pub fn capture_cursor(&mut self, index: u64) -> (r: Option<WrappedIndex>)
        ensures
            r == old(self).cursor_capture,
            final(self).cursor_capture == Some(WrappedIndex(index)),
            *final(self) == (EventDispatcher { cursor_capture: Some(WrappedIndex(index)), ..*old(self) }),
    {
        let old = self.cursor_capture;
        self.cursor_capture = Some(WrappedIndex(index));
        old
    }

    /// Releases the captured cursor, but only when `index` is the current captor; returns
    /// whether it did.
    ///
    /// This prevents other widgets from accidentally releasing it against the will of the
    /// widget that captured it. [`force_release_cursor`](Self::force_release_cursor) releases
    /// regardless of the captor.
    pub fn release_cursor(&mut self, index: u64) -> (r: bool)
        ensures
            r == (old(self).cursor_capture == Some(WrappedIndex(index))),
            *final(self) == (if r {
                EventDispatcher { cursor_capture: None, ..*old(self) }
            } else {
                *old(self)
            }),
    {
        if self.cursor_capture == Some(WrappedIndex(index)) {
            self.force_release_cursor();
            true
        } else {
            false
        }
    }

    /// Releases the captured cursor regardless of the captor; returns the previous captor.
    pub fn force_release_cursor(&mut self) -> (r: Option<WrappedIndex>)
        ensures
            r == old(self).cursor_capture,
            *final(self) == (EventDispatcher { cursor_capture: None, ..*old(self) }),
    {
        let old = self.cursor_capture;
        self.cursor_capture = None;
        old
    }

    /// Returns true if the cursor is currently over a widget that can display a visual
    /// component on its own (see [`can_contain_cursor`](Self::can_contain_cursor)).
    pub fn contains_cursor(&self) -> (r: bool)
        ensures
            r == (self.contains_cursor_view() == Some(true)),
    {
        match self.contains_cursor {
            Some(b) => b,
            None => false,
        }
    }

    /// Returns true if the cursor may be needed by a widget or it's already in use by one
    ///
    /// This is useful for checking if certain events (such as a click) would "matter" to the
    /// UI at all. Example widgets include buttons, sliders, and text boxes.
    pub fn wants_cursor(&self) -> (r: bool)
        ensures
            r == (self.wants_cursor_view() == Some(true) || self.has_cursor_view() is Some),
    {
        let wants = match self.wants_cursor {
            Some(b) => b,
            None => false,
        };
        wants || self.has_cursor.is_some()
    }

    /// Returns true if the cursor is currently in use by a widget
    ///
    /// This stays true during a drag that leaves the widget, as long as it started within it.
    pub fn has_cursor(&self) -> (r: bool)
        ensures
            r == self.has_cursor_view() is Some,
    {
        self.has_cursor.is_some()
    }

    /// The currently hovered node
    pub fn hovered(&self) -> (r: Option<WrappedIndex>)
        ensures
            r == self.hovered,
    {
        self.hovered
    }

    /// Takes over what `from` changed internally: everything but the cursor captor, which
    /// only changes from outside.
    pub fn merge(&mut self, from: EventDispatcher)
        ensures
            *final(self) == (EventDispatcher { cursor_capture: old(self).cursor_capture, ..from }),
    {
        self.is_mouse_pressed = from.is_mouse_pressed;
        self.next_mouse_pressed = from.next_mouse_pressed;
        self.current_mouse_position = from.current_mouse_position;
        self.next_mouse_position = from.next_mouse_position;
        self.previous_events = from.previous_events;
        self.keyboard_modifiers = from.keyboard_modifiers;
        self.contains_cursor = from.contains_cursor;
        self.wants_cursor = from.wants_cursor;
        self.has_cursor = from.has_cursor;
        self.hovered = from.hovered;
    }

    /// The cursor event at `position` for the update being built: whether the mouse is
    /// pressed, and whether it was just pressed or just released.
    pub fn get_cursor_event(&self, position: (FloatBits, FloatBits)) -> (r: CursorEvent)
        ensures
            r == (CursorEvent {
                position,
                pressed: self.next_mouse_pressed_view(),
                just_pressed: self.next_mouse_pressed_view() != self.mouse_pressed_view()
                    && self.next_mouse_pressed_view(),
                just_released: self.next_mouse_pressed_view() != self.mouse_pressed_view()
                    && !self.next_mouse_pressed_view(),
            }),
    {
        let change = self.next_mouse_pressed != self.is_mouse_pressed;
        let pressed = self.next_mouse_pressed;
        CursorEvent { position, pressed, just_pressed: change && pressed, just_released: change && !pressed }
    }

    /// Turns a keyboard input event into events for the focused widget, keeping track of
    /// the modifier keys: a typed character gives a character-input event, a key press a
    /// key-down event and a key release a key-up event, each with the key and the modifiers
    /// as they are after it. Nothing happens without focus.
    pub fn process_keyboard_event(&mut self, input_event: &InputEvent, focus_tree: &FocusTree) -> (r: Vec<(u64, KeyboardEventType)>)
        ensures
            match (focused_id(*focus_tree), *input_event) {
                (Some(f), InputEvent::CharEvent { c }) => {
                    &&& r@ == seq![(f, KeyboardEventType::CharInput { c })]
                    &&& *final(self) == *old(self)
                },
                (Some(f), InputEvent::Keyboard { key, is_pressed }) => {
                    let modifiers = modifiers_after(old(self).modifiers_view(), key, is_pressed);
                    let event = KeyboardEvent { key, modifiers };
                    &&& r@ == seq![(f, if is_pressed { KeyboardEventType::KeyDown(event) } else { KeyboardEventType::KeyUp(event) })]
                    &&& *final(self) == (EventDispatcher { keyboard_modifiers: modifiers, ..*old(self) })
                },
                _ => {
                    &&& r@ == Seq::<(u64, KeyboardEventType)>::empty()
                    &&& *final(self) == *old(self)
                },
            },
            match *input_event {
                InputEvent::Keyboard { key, is_pressed } => focused_id(*focus_tree) is Some ==> {
                    &&& (key == KeyCode::ControlLeft || key == KeyCode::ControlRight)
                        ==> final(self).modifiers_view().is_ctrl_pressed == is_pressed
                    &&& (key == KeyCode::ShiftLeft || key == KeyCode::ShiftRight)
                        ==> final(self).modifiers_view().is_shift_pressed == is_pressed
                    &&& (key == KeyCode::AltLeft || key == KeyCode::AltRight)
                        ==> final(self).modifiers_view().is_alt_pressed == is_pressed
                    &&& (key == KeyCode::SuperLeft || key == KeyCode::SuperRight)
                        ==> final(self).modifiers_view().is_meta_pressed == is_pressed
                },
                _ => true,
            },
    {
        let mut event_stream = Vec::new();
        if let Some(current_focus) = focus_tree.current() {
            match input_event {
                InputEvent::CharEvent { c } => {
                    event_stream.push((current_focus, KeyboardEventType::CharInput { c: *c }));
                },
                InputEvent::Keyboard { key, is_pressed } => {
                    match key {
                        KeyCode::ControlLeft | KeyCode::ControlRight => {
                            self.keyboard_modifiers.is_ctrl_pressed = *is_pressed;
                        },
                        KeyCode::ShiftLeft | KeyCode::ShiftRight => {
                            self.keyboard_modifiers.is_shift_pressed = *is_pressed;
                        },
                        KeyCode::AltLeft | KeyCode::AltRight => {
                            self.keyboard_modifiers.is_alt_pressed = *is_pressed;
                        },
                        KeyCode::SuperLeft | KeyCode::SuperRight => {
                            self.keyboard_modifiers.is_meta_pressed = *is_pressed;
                        },
                        _ => {},
                    }
                    let event = KeyboardEvent { key: *key, modifiers: self.keyboard_modifiers };
                    if *is_pressed {
                        event_stream.push((current_focus, KeyboardEventType::KeyDown(event)));
                    } else {
                        event_stream.push((current_focus, KeyboardEventType::KeyUp(event)));
                    }
                },
                _ => {},
            }
        }
        proof {
            assert(event_stream@ =~= match (focused_id(*focus_tree), *input_event) {
                (Some(f), InputEvent::CharEvent { c }) => seq![(f, KeyboardEventType::CharInput { c })],
                (Some(f), InputEvent::Keyboard { key, is_pressed }) => {
                    let event = KeyboardEvent { key, modifiers: modifiers_after(old(self).modifiers_view(), key, is_pressed) };
                    seq![(f, if is_pressed { KeyboardEventType::KeyDown(event) } else { KeyboardEventType::KeyUp(event) })]
                },
                _ => Seq::<(u64, KeyboardEventType)>::empty(),
            });
        }
        event_stream
    }

    /// The default action of a key-down event for the Tab key: moves focus to the next
    /// focusable widget (the previous one with Shift held) and returns the events to
    /// dispatch: a focus event for the newly focused widget and, when focus moved away from
    /// another widget, a blur event for that widget.
    pub fn execute_default_tab(focus_tree: &mut FocusTree, is_shift_pressed: bool) -> (r: Vec<(u64, EventKind)>)
        requires
            old(focus_tree).wf(),
        ensures
            tab_moved(*old(focus_tree), *final(focus_tree), is_shift_pressed, r@),
    {
        let current_focus = focus_tree.current();
        let index = if is_shift_pressed {
            focus_tree.prev()
        } else {
            focus_tree.next()
        };
        let mut events = Vec::new();
        if let Some(index) = index {
            events.push((index, EventKind::Focus));
            if let Some(current_focus) = current_focus {
                if current_focus != index {
                    events.push((current_focus, EventKind::Blur));
                }
            }
            focus_tree.focus(index);
        }
        events
    }

    /// The default action of a keyboard event that no handler prevented: a key-down event
    /// for the Tab key moves focus (see [`execute_default_tab`](Self::execute_default_tab)),
    /// backwards when Shift is held; other events do nothing.
    pub fn execute_default(event: KeyboardEventType, focus_tree: &mut FocusTree) -> (r: Vec<(u64, EventKind)>)
        requires
            old(focus_tree).wf(),
        ensures
            match event {
                KeyboardEventType::KeyDown(e) => if e.key == KeyCode::Tab {
                    tab_moved(*old(focus_tree), *final(focus_tree), e.modifiers.is_shift_pressed, r@)
                } else {
                    &&& r@ == Seq::<(u64, EventKind)>::empty()
                    &&& *final(focus_tree) == *old(focus_tree)
                },
                _ => {
                    &&& r@ == Seq::<(u64, EventKind)>::empty()
                    &&& *final(focus_tree) == *old(focus_tree)
                },
            },
    {
        if let KeyboardEventType::KeyDown(evt) = event {
            if let KeyCode::Tab = evt.key {
                return Self::execute_default_tab(focus_tree, evt.modifiers.is_shift_pressed);
            }
        }
        Vec::new()
    }

    /// Whether a widget with these styles can "contain" the cursor: its render command is
    /// neither empty, layout-only nor a clip. An unset or default render command resolves
    /// to the empty command.
    pub fn can_contain_cursor(widget_styles: &KStyle) -> (r: bool)
        requires
            !(widget_styles.render_command is Inherit),
        ensures
            r == (widget_styles.render_command matches StyleProp::Value(c) && !(c is Empty || c is Layout
                || c is Clip)),
    {
        match &widget_styles.render_command {
            StyleProp::Value(cmd) => !matches!(cmd, RenderCommand::Empty | RenderCommand::Layout | RenderCommand::Clip),
            _ => false,
        }
    }
}

impl EventDispatcherContext {
    /// The captor recorded in this context.
    pub closed spec fn captor_view(self) -> Option<WrappedIndex> {
        self.cursor_capture
    }

    /// A context recording the given captor.
    pub fn new(cursor_capture: Option<WrappedIndex>) -> (r: EventDispatcherContext)
        ensures
            r.captor_view() == cursor_capture,
    {
        EventDispatcherContext { cursor_capture }
    }

    /// Captures all cursor events and instead makes the given index the target; returns the
    /// previous captor.
    pub fn capture_cursor(&mut self, index: u64) -> (r: Option<WrappedIndex>)
        ensures
            r == old(self).captor_view(),
            final(self).captor_view() == Some(WrappedIndex(index)),
    {
        let old = self.cursor_capture;
        self.cursor_capture = Some(WrappedIndex(index));
        old
    }

    /// Releases the captured cursor, but only when `index` is the current captor; returns
    /// whether it did.
    pub fn release_cursor(&mut self, index: u64) -> (r: bool)
        ensures
            r == (old(self).captor_view() == Some(WrappedIndex(index))),
            final(self).captor_view() == (if r {
                None
            } else {
                old(self).captor_view()
            }),
    {
        if self.cursor_capture == Some(WrappedIndex(index)) {
            self.force_release_cursor();
            true
        } else {
            false
        }
    }

    /// Releases the captured cursor regardless of the captor; returns the previous captor.
    pub fn force_release_cursor(&mut self) -> (r: Option<WrappedIndex>)
        ensures
            r == old(self).captor_view(),
            final(self).captor_view() is None,
    {
        let old = self.cursor_capture;
        self.cursor_capture = None;
        old
    }

    /// Hands the captor recorded here back to the dispatcher.
    pub fn merge(self, event_dispatcher: &mut EventDispatcher)
        ensures
            *final(event_dispatcher) == (EventDispatcher { cursor_capture: self.captor_view(), ..*old(event_dispatcher) }),
    {
        event_dispatcher.cursor_capture = self.cursor_capture;
    }
}

/// A press or release of the left mouse button.
pub open spec fn is_button(e: InputEvent) -> bool {
    e is MouseLeftPress || e is MouseLeftRelease
}

/// `j` is where the scan of `s` for the mouse state stops: the first button event, or the
/// end of `s` when there is none.
pub open spec fn is_scan_stop(s: Seq<InputEvent>, j: int) -> bool {
    &&& 0 <= j <= s.len()
    &&& (j < s.len() ==> is_button(s[j]))
    &&& forall|i: int| 0 <= i < j ==> !is_button(s[i])
}

/// The position of the last mouse move among the first `n` events of `s`, or `default`.
pub open spec fn last_position(s: Seq<InputEvent>, n: int, default: (FloatBits, FloatBits)) -> (FloatBits, FloatBits)
    decreases n,
{
    if n <= 0 {
        default
    } else {
        match s[n - 1] {
            InputEvent::MouseMoved(p) => p,
            _ => last_position(s, n - 1, default),
        }
    }
}

/// Among the first `n` events of `s`, the last mouse move decides the position: when the
/// event at `k` moves the mouse to `p` and no later one of them moves it, the position is `p`.
pub proof fn lemma_last_move_wins(
    s: Seq<InputEvent>,
    n: int,
    default: (FloatBits, FloatBits),
    k: int,
    p: (FloatBits, FloatBits),
)
    requires
        0 <= k < n <= s.len(),
        s[k] == InputEvent::MouseMoved(p),
        forall|i: int| k < i < n ==> !(s[i] is MouseMoved),
    ensures
        last_position(s, n, default) == p,
    decreases n,
{
    if n - 1 > k {
        lemma_last_move_wins(s, n - 1, default, k, p);
    }
}

/// Without a mouse move among the first `n` events of `s`, the position stays `default`.
pub proof fn lemma_no_move_keeps_position(s: Seq<InputEvent>, n: int, default: (FloatBits, FloatBits))
    requires
        0 <= n <= s.len(),
        forall|i: int| 0 <= i < n ==> !(s[i] is MouseMoved),
    ensures
        last_position(s, n, default) == default,
    decreases n,
{
    if n > 0 {
        lemma_no_move_keeps_position(s, n - 1, default);
    }
}

impl EventDispatcher {
    /// Prepares the cursor state for building an event stream from `input_events`.
    ///
    /// The hovered widget and whether the cursor is contained or wanted are cleared (their
    /// previous values are returned, to be restored by
    /// [`finish_event_stream`](Self::finish_event_stream) where nothing sets them). The
    /// events are scanned up to and including the first button event: the next mouse
    /// position is that of the last mouse move seen, and a press or release sets the next
    /// pressed state; a release also frees the widget holding the cursor.
    pub fn begin_event_stream(&mut self, input_events: &[InputEvent]) -> (r: (Option<WrappedIndex>, Option<bool>, Option<bool>))
        ensures
            r == (old(self).hovered, old(self).contains_cursor, old(self).wants_cursor),
            final(self).hovered is None,
            final(self).contains_cursor is None,
            final(self).wants_cursor is None,
            forall|k: int|
                0 <= k < input_events@.len() && #[trigger] input_events@[k] is MouseMoved
                && (forall|i: int| 0 <= i < k ==> !is_button(input_events@[i]))
                && (forall|i: int| k < i < input_events@.len() ==> !(input_events@[i] is MouseMoved))
                ==> final(self).next_mouse_position == input_events@[k]->0,
            (forall|i: int| 0 <= i < input_events@.len() ==> !(input_events@[i] is MouseMoved))
                ==> final(self).next_mouse_position == old(self).current_mouse_position,
            forall|b: int|
                0 <= b < input_events@.len() && #[trigger] is_button(input_events@[b])
                && (forall|i: int| 0 <= i < b ==> !is_button(input_events@[i]))
                ==> {
                    &&& final(self).next_mouse_pressed == (input_events@[b] is MouseLeftPress)
                    &&& final(self).has_cursor == (if input_events@[b] is MouseLeftRelease {
                        None
                    } else {
                        old(self).has_cursor
                    })
                },
            forall|b: int, k: int|
                #![trigger is_button(input_events@[b]), input_events@[k]]
                0 <= k <= b < input_events@.len() && is_button(input_events@[b])
                && (forall|i: int| 0 <= i < b ==> !is_button(input_events@[i]))
                && input_events@[k] is MouseMoved
                && (forall|i: int| k < i <= b ==> !(input_events@[i] is MouseMoved))
                ==> final(self).next_mouse_position == input_events@[k]->0,
            (forall|i: int| 0 <= i < input_events@.len() ==> !is_button(input_events@[i])) ==> {
                &&& final(self).next_mouse_pressed == old(self).is_mouse_pressed
                &&& final(self).has_cursor == old(self).has_cursor
            },
            exists|j: int| #[trigger] is_scan_stop(input_events@, j) && {
                let end = if j < input_events@.len() { j + 1 } else { j };
                &&& final(self).next_mouse_position == last_position(
                    input_events@,
                    end,
                    old(self).current_mouse_position,
                )
                &&& final(self).next_mouse_pressed == (if j < input_events@.len() {
                    input_events@[j] is MouseLeftPress
                } else {
                    old(self).is_mouse_pressed
                })
                &&& final(self).has_cursor == (if j < input_events@.len() && input_events@[j] is MouseLeftRelease {
                    None
                } else {
                    old(self).has_cursor
                })
            },
            final(self).is_mouse_pressed == old(self).is_mouse_pressed,
            final(self).current_mouse_position == old(self).current_mouse_position,
            final(self).previous_events == old(self).previous_events,
            final(self).keyboard_modifiers == old(self).keyboard_modifiers,
            final(self).cursor_capture == old(self).cursor_capture,
    {
        let old_hovered = self.hovered;
        let old_contains_cursor = self.contains_cursor;
        let old_wants_cursor = self.wants_cursor;
        self.hovered = None;
        self.contains_cursor = None;
        self.wants_cursor = None;
        self.next_mouse_position = self.current_mouse_position;
        self.next_mouse_pressed = self.is_mouse_pressed;
        let ghost start = *self;
        let mut i: usize = 0;
        while i < input_events.len()
            invariant_except_break
                i <= input_events@.len(),
                forall|k: int| 0 <= k < i ==> !is_button(input_events@[k]),
                self.next_mouse_position == last_position(input_events@, i as int, start.current_mouse_position),
                *self == (EventDispatcher { next_mouse_position: self.next_mouse_position, ..start }),
                start.next_mouse_pressed == start.is_mouse_pressed,
                start.hovered is None,
                start.contains_cursor is None,
                start.wants_cursor is None,
                i == input_events@.len() ==> is_scan_stop(input_events@, i as int),
            ensures
                exists|j: int| #[trigger] is_scan_stop(input_events@, j) && {
                    let end = if j < input_events@.len() { j + 1 } else { j };
                    &&& self.next_mouse_position == last_position(input_events@, end, start.current_mouse_position)
                    &&& self.next_mouse_pressed == (if j < input_events@.len() {
                        input_events@[j] is MouseLeftPress
                    } else {
                        start.is_mouse_pressed
                    })
                    &&& self.has_cursor == (if j < input_events@.len() && input_events@[j] is MouseLeftRelease {
                        None
                    } else {
                        start.has_cursor
                    })
                },
                self.is_mouse_pressed == start.is_mouse_pressed,
                self.current_mouse_position == start.current_mouse_position,
                self.previous_events == start.previous_events,
                self.keyboard_modifiers == start.keyboard_modifiers,
                self.cursor_capture == start.cursor_capture,
                self.hovered is None,
                self.contains_cursor is None,
                self.wants_cursor is None,
            decreases input_events@.len() - i,
        {
            let input_event = input_events[i];
            if let InputEvent::MouseMoved(point) = input_event {
                self.next_mouse_position = point;
            }
            if let InputEvent::MouseLeftPress = input_event {
                self.next_mouse_pressed = true;
                assert(is_scan_stop(input_events@, i as int));
                break;
            } else if let InputEvent::MouseLeftRelease = input_event {
                self.next_mouse_pressed = false;
                self.has_cursor = None;
                assert(is_scan_stop(input_events@, i as int));
                break;
            }
            i += 1;
            if i == input_events.len() {
                assert(is_scan_stop(input_events@, i as int));
            }
        }
        proof {
            let s = input_events@;
            let j = choose|j: int| #[trigger] is_scan_stop(s, j) && {
                let end = if j < s.len() { j + 1 } else { j };
                &&& self.next_mouse_position == last_position(s, end, start.current_mouse_position)
                &&& self.next_mouse_pressed == (if j < s.len() {
                    s[j] is MouseLeftPress
                } else {
                    start.is_mouse_pressed
                })
                &&& self.has_cursor == (if j < s.len() && s[j] is MouseLeftRelease {
                    None
                } else {
                    start.has_cursor
                })
            };
            let end = if j < s.len() { j + 1 } else { j };
            assert forall|k: int|
                0 <= k < s.len() && #[trigger] s[k] is MouseMoved
                && (forall|i: int| 0 <= i < k ==> !is_button(s[i]))
                && (forall|i: int| k < i < s.len() ==> !(s[i] is MouseMoved))
                implies self.next_mouse_position == s[k]->0 by {
                let p = s[k]->0;
                assert(!is_button(s[k]));
                if j <= k {
                    assert(j < s.len() ==> is_button(s[j]));
                }
                lemma_last_move_wins(s, end, start.current_mouse_position, k, p);
            }
            if forall|i: int| 0 <= i < s.len() ==> !(s[i] is MouseMoved) {
                lemma_no_move_keeps_position(s, end, start.current_mouse_position);
            }
            assert forall|b: int|
                0 <= b < s.len() && #[trigger] is_button(s[b])
                && (forall|i: int| 0 <= i < b ==> !is_button(s[i]))
                implies j == b by {
                if j < b {
                    assert(is_button(s[j]));
                }
            }
            assert forall|b: int, k: int|
                #![trigger is_button(s[b]), s[k]]
                0 <= k <= b < s.len() && is_button(s[b])
                && (forall|i: int| 0 <= i < b ==> !is_button(s[i]))
                && s[k] is MouseMoved
                && (forall|i: int| k < i <= b ==> !(s[i] is MouseMoved))
                implies self.next_mouse_position == s[k]->0 by {
                assert(j == b);
                lemma_last_move_wins(s, end, start.current_mouse_position, k, s[k]->0);
            }
            if forall|i: int| 0 <= i < s.len() ==> !is_button(s[i]) {
                if j < s.len() {
                    assert(is_button(s[j]));
                }
            }
        }
        (old_hovered, old_contains_cursor, old_wants_cursor)
    }

    /// Completes the cursor state after an event stream was built: the next mouse position
    /// and pressed state become current, and the hovered widget and whether the cursor is
    /// contained or wanted go back to the given previous values where nothing set them.
    pub fn finish_event_stream(
        &mut self,
        old_hovered: Option<WrappedIndex>,
        old_contains_cursor: Option<bool>,
        old_wants_cursor: Option<bool>,
    )
        ensures
            *final(self) == (EventDispatcher {
                current_mouse_position: old(self).next_mouse_position,
                is_mouse_pressed: old(self).next_mouse_pressed,
                hovered: if old(self).hovered is None { old_hovered } else { old(self).hovered },
                contains_cursor: if old(self).contains_cursor is None {
                    old_contains_cursor
                } else {
                    old(self).contains_cursor
                },
                wants_cursor: if old(self).wants_cursor is None { old_wants_cursor } else { old(self).wants_cursor },
                ..*old(self)
            }),
    {
        self.current_mouse_position = self.next_mouse_position;
        self.is_mouse_pressed = self.next_mouse_pressed;
        if self.hovered.is_none() {
            self.hovered = old_hovered;
        }
        if self.contains_cursor.is_none() {
            self.contains_cursor = old_contains_cursor;
        }
        if self.wants_cursor.is_none() {
            self.wants_cursor = old_wants_cursor;
        }
    }

    /// Gives focus to `node`, the best match for a focus event, and returns the events to
    /// send: a focus event for `node` and, when another widget had focus, a blur event for it.
    pub fn focus_best_match(focus_tree: &mut FocusTree, node: WrappedIndex) -> (r: Vec<(u64, EventKind)>)
        ensures
            final(focus_tree).tree_view() == old(focus_tree).tree_view(),
            final(focus_tree).focus_view() == Some(node),
            r@ == (match focused_id(*old(focus_tree)) {
                Some(c) => if c != node.0 {
                    seq![(node.0, EventKind::Focus), (c, EventKind::Blur)]
                } else {
                    seq![(node.0, EventKind::Focus)]
                },
                None => seq![(node.0, EventKind::Focus)],
            }),
    {
        let mut events = Vec::new();
        events.push((node.0, EventKind::Focus));
        if let Some(current_focus) = focus_tree.current() {
            if current_focus != node.0 {
                events.push((current_focus, EventKind::Blur));
            }
        }
        focus_tree.focus(node.0);
        proof {
            assert(WrappedIndex(node.0) == node);
        }
        events
    }

    /// A left press that gave no widget focus blurs the focused widget: returns the blur
    /// event to send, if any, and returns focus to the root.
    pub fn blur_on_press(focus_tree: &mut FocusTree, had_focus_event: bool, input_events: &[InputEvent]) -> (r: Option<(u64, EventKind)>)
        ensures
            ({
                let pressed = exists|i: int| 0 <= i < input_events@.len() && #[trigger] input_events@[i] is MouseLeftPress;
                if !had_focus_event && pressed && focused_id(*old(focus_tree)) is Some {
                    &&& r == Some(((focused_id(*old(focus_tree))->0), EventKind::Blur))
                    &&& final(focus_tree).focus_view() == old(focus_tree).tree_view().root_node
                    &&& final(focus_tree).tree_view() == old(focus_tree).tree_view()
                } else {
                    &&& r is None
                    &&& *final(focus_tree) == *old(focus_tree)
                }
            }),
    {
        if had_focus_event {
            return None;
        }
        let mut pressed = false;
        let mut i: usize = 0;
        while i < input_events.len()
            invariant
                i <= input_events@.len(),
                pressed == exists|k: int| 0 <= k < i && #[trigger] input_events@[k] is MouseLeftPress,
            decreases input_events@.len() - i,
        {
            if let InputEvent::MouseLeftPress = input_events[i] {
                pressed = true;
            }
            i += 1;
        }
        if pressed {
            if let Some(current_focus) = focus_tree.current() {
                focus_tree.blur();
                return Some((current_focus, EventKind::Blur));
            }
        }
        None
    }

    /// Where an event goes after the widget `index` handled it: to its parent in `tree`
    /// when the event should propagate, nowhere otherwise.
    pub fn propagation_target(tree: &Tree, index: WrappedIndex, should_propagate: bool) -> (r: Option<WrappedIndex>)
        ensures
            r == (if should_propagate {
                tree.parent_of(index.0)
            } else {
                None
            }),
    {
        if should_propagate {
            tree.get_parent(index)
        } else {
            None
        }
    }
}


/// Where a widget's layout lies relative to the cursor, for one input event.
#[derive(Debug, Clone, Copy, PartialEq, Eq, Structural)]
pub struct LayoutHit {
    /// Whether the layout contains the mouse position of the last update.
    pub contains_current: bool,
    /// Whether the layout contains the position the event moved the mouse to (only read for
    /// a mouse move).
    pub contains_event: bool,
}

/// A pointer event with what it carries.
#[derive(Debug, Clone, Copy, PartialEq, Eq)]
pub enum PointerEventType {
    Click(CursorEvent),
    Hover(CursorEvent),
    MouseIn(CursorEvent),
    MouseOut(CursorEvent),
    MouseDown(CursorEvent),
    MouseUp(CursorEvent),
    Scroll(ScrollEvent),
    Focus,
}

/// The kind of a pointer event.
pub open spec fn pointer_kind(e: PointerEventType) -> EventKind {
    match e {
        PointerEventType::Click(_) => EventKind::Click,
        PointerEventType::Hover(_) => EventKind::Hover,
        PointerEventType::MouseIn(_) => EventKind::MouseIn,
        PointerEventType::MouseOut(_) => EventKind::MouseOut,
        PointerEventType::MouseDown(_) => EventKind::MouseDown,
        PointerEventType::MouseUp(_) => EventKind::MouseUp,
        PointerEventType::Scroll(_) => EventKind::Scroll,
        PointerEventType::Focus => EventKind::Focus,
    }
}

/// The cursor event at `position` for the update being built.
pub open spec fn cursor_event_at(d: EventDispatcher, position: (FloatBits, FloatBits)) -> CursorEvent {
    CursorEvent {
        position,
        pressed: d.next_mouse_pressed_view(),
        just_pressed: d.next_mouse_pressed_view() != d.mouse_pressed_view() && d.next_mouse_pressed_view(),
        just_released: d.next_mouse_pressed_view() != d.mouse_pressed_view() && !d.next_mouse_pressed_view(),
    }
}

/// Whether styles let a widget contain the cursor (see `can_contain_cursor`).
pub open spec fn contains_cursor_style(s: KStyle) -> bool {
    s.render_command matches StyleProp::Value(c) && !(c is Empty || c is Layout || c is Clip)
}

/// What one input event does for one widget: the dispatcher after it, the events sent at
/// once, and the events that compete for the best match among widgets.
/// `can_contain` is `None` when the widget has no computed styles.
pub open spec fn pointer_step(
    d: EventDispatcher,
    e: InputEvent,
    node: WrappedIndex,
    hit: Option<LayoutHit>,
    can_contain: Option<bool>,
    focusable: bool,
    ignore_layout: bool,
) -> (EventDispatcher, Seq<(u64, PointerEventType)>, Seq<PointerEventType>) {
    match hit {
        None => (d, Seq::empty(), Seq::empty()),
        Some(h) => match e {
            InputEvent::MouseMoved(point) => {
                let ev = cursor_event_at(d, point);
                let changed = !ignore_layout && h.contains_current != h.contains_event;
                let sent: Seq<(u64, PointerEventType)> = if changed && h.contains_current {
                    seq![(node.0, PointerEventType::MouseOut(ev))]
                } else {
                    Seq::empty()
                };
                let entered: Seq<PointerEventType> = if changed && !h.contains_current {
                    seq![PointerEventType::MouseIn(ev)]
                } else {
                    Seq::empty()
                };
                let hovered: Seq<PointerEventType> = if ignore_layout || h.contains_event {
                    seq![PointerEventType::Hover(ev)]
                } else {
                    Seq::empty()
                };
                let contains = if (d.contains_cursor is None || d.contains_cursor == Some(false))
                    && can_contain is Some && (ignore_layout || can_contain == Some(true)) {
                    Some(h.contains_event)
                } else {
                    d.contains_cursor
                };
                let wants = if (d.wants_cursor is None || d.wants_cursor == Some(false)) && focusable {
                    Some(h.contains_event)
                } else {
                    d.wants_cursor
                };
                (EventDispatcher { contains_cursor: contains, wants_cursor: wants, ..d }, sent, entered + hovered)
            },
            InputEvent::MouseLeftPress => {
                if ignore_layout || h.contains_current {
                    let ev = cursor_event_at(d, d.current_mouse_position);
                    let focus: Seq<PointerEventType> = if focusable {
                        seq![PointerEventType::Focus]
                    } else {
                        Seq::empty()
                    };
                    let holder = if d.has_cursor is None && can_contain == Some(true) {
                        Some(node)
                    } else {
                        d.has_cursor
                    };
                    (EventDispatcher { has_cursor: holder, ..d }, Seq::empty(), seq![PointerEventType::MouseDown(ev)] + focus)
                } else {
                    (d, Seq::empty(), Seq::empty())
                }
            },
            InputEvent::MouseLeftRelease => {
                if ignore_layout || h.contains_current {
                    let ev = cursor_event_at(d, d.current_mouse_position);
                    let pressed_here = d.previous_events_view().contains_key(node.0)
                        && d.previous_events_view()[node.0].contains(EventKind::MouseDown);
                    let click: Seq<PointerEventType> = if pressed_here {
                        seq![PointerEventType::Click(ev)]
                    } else {
                        Seq::empty()
                    };
                    (d, Seq::empty(), seq![PointerEventType::MouseUp(ev)] + click)
                } else {
                    (d, Seq::empty(), Seq::empty())
                }
            },
            InputEvent::Scroll { dx, dy, is_line } => {
                if ignore_layout || h.contains_current {
                    let delta = if is_line {
                        ScrollUnit::Line { x: dx, y: dy }
                    } else {
                        ScrollUnit::Pixel { x: dx, y: dy }
                    };
                    (d, Seq::empty(), seq![PointerEventType::Scroll(ScrollEvent { delta })])
                } else {
                    (d, Seq::empty(), Seq::empty())
                }
            },
            _ => (d, Seq::empty(), Seq::empty()),
        },
    }
}

/// A widget without a layout gets nothing from any input event, and the dispatcher does not
/// change.
pub proof fn lemma_no_layout_no_events(
    d: EventDispatcher,
    e: InputEvent,
    node: WrappedIndex,
    can_contain: Option<bool>,
    focusable: bool,
    ignore_layout: bool,
)
    ensures
        pointer_step(d, e, node, None, can_contain, focusable, ignore_layout) == (
            d,
            Seq::<(u64, PointerEventType)>::empty(),
            Seq::<PointerEventType>::empty(),
        ),
{
}

/// A press of the left button over a widget makes a mouse-down candidate at the current
/// mouse position, carrying the pressed state of this update, followed by a focus candidate
/// exactly when the widget is focusable. Nothing is sent at once. A press elsewhere makes
/// nothing.
pub proof fn lemma_press_candidates(
    d: EventDispatcher,
    node: WrappedIndex,
    h: LayoutHit,
    can_contain: Option<bool>,
    focusable: bool,
    ignore_layout: bool,
)
    ensures
        ({
            let step = pointer_step(d, InputEvent::MouseLeftPress, node, Some(h), can_contain, focusable, ignore_layout);
            &&& step.1.len() == 0
            &&& (ignore_layout || h.contains_current) ==> {
                &&& step.2.len() == (if focusable { 2int } else { 1int })
                &&& step.2[0] is MouseDown
                &&& step.2[0]->MouseDown_0.position == d.current_mouse_position
                &&& step.2[0]->MouseDown_0.pressed == d.next_mouse_pressed
                &&& focusable ==> step.2[1] == PointerEventType::Focus
            }
            &&& !(ignore_layout || h.contains_current) ==> step.2.len() == 0 && step.0 == d
        }),
{
}

/// A release of the left button over a widget makes a mouse-up candidate at the current
/// mouse position, followed by a click candidate exactly when the widget got a mouse-down in
/// the previous update. Nothing is sent at once and the dispatcher does not change. A
/// release elsewhere makes nothing.
pub proof fn lemma_release_candidates(
    d: EventDispatcher,
    node: WrappedIndex,
    h: LayoutHit,
    can_contain: Option<bool>,
    focusable: bool,
    ignore_layout: bool,
)
    ensures
        ({
            let step = pointer_step(d, InputEvent::MouseLeftRelease, node, Some(h), can_contain, focusable, ignore_layout);
            let pressed_here = d.previous_events_view().contains_key(node.0)
                && d.previous_events_view()[node.0].contains(EventKind::MouseDown);
            &&& step.0 == d
            &&& step.1.len() == 0
            &&& (ignore_layout || h.contains_current) ==> {
                &&& step.2.len() == (if pressed_here { 2int } else { 1int })
                &&& step.2[0] is MouseUp
                &&& step.2[0]->MouseUp_0.position == d.current_mouse_position
                &&& pressed_here ==> step.2[1] is Click
                &&& pressed_here ==> step.2[1]->Click_0 == step.2[0]->MouseUp_0
            }
            &&& !(ignore_layout || h.contains_current) ==> step.2.len() == 0
        }),
{
}

/// A mouse move to `point`: when the cursor left the widget's layout (it held the last
/// position and not `point`) a mouse-out is sent to the widget at once; when it entered the
/// layout a mouse-in candidate is made; while `point` is over the layout a hover candidate
/// is made. Each carries the position `point`. The widget holding the cursor gets no
/// mouse-in or mouse-out, and a hover candidate whatever the layout.
pub proof fn lemma_move_events(
    d: EventDispatcher,
    point: (FloatBits, FloatBits),
    node: WrappedIndex,
    h: LayoutHit,
    can_contain: Option<bool>,
    focusable: bool,
    ignore_layout: bool,
)
    ensures
        ({
            let step = pointer_step(d, InputEvent::MouseMoved(point), node, Some(h), can_contain, focusable, ignore_layout);
            let left = !ignore_layout && h.contains_current && !h.contains_event;
            let entered = !ignore_layout && !h.contains_current && h.contains_event;
            let over = ignore_layout || h.contains_event;
            &&& step.1.len() == (if left { 1int } else { 0int })
            &&& left ==> step.1[0].0 == node.0 && step.1[0].1 is MouseOut
            &&& left ==> step.1[0].1->MouseOut_0.position == point
            &&& step.2.len() == (if entered { 1int } else { 0int }) + (if over { 1int } else { 0int })
            &&& entered ==> step.2[0] is MouseIn && step.2[0]->MouseIn_0.position == point
            &&& over ==> step.2.last() is Hover && step.2.last()->Hover_0.position == point
            &&& step.0.hovered == d.hovered
            &&& step.0.has_cursor == d.has_cursor
            &&& step.0.next_mouse_position == d.next_mouse_position
        }),
{
}

/// A scroll over a widget, or for the widget holding the cursor, makes exactly one scroll
/// candidate whose delta carries the event's horizontal amount as `x` and its vertical
/// amount as `y`: in pixels for a pixel scroll, in lines for a line scroll. Nothing is sent
/// at once and the dispatcher does not change. A scroll elsewhere makes nothing.
pub proof fn lemma_scroll_candidate(
    d: EventDispatcher,
    dx: FloatBits,
    dy: FloatBits,
    is_line: bool,
    node: WrappedIndex,
    h: LayoutHit,
    can_contain: Option<bool>,
    focusable: bool,
    ignore_layout: bool,
)
    ensures
        ({
            let step = pointer_step(d, InputEvent::Scroll { dx, dy, is_line }, node, Some(h), can_contain, focusable, ignore_layout);
            &&& step.0 == d
            &&& step.1.len() == 0
            &&& (ignore_layout || h.contains_current) ==> step.2.len() == 1
            &&& (ignore_layout || h.contains_current) && !is_line ==> step.2[0]
                == PointerEventType::Scroll(ScrollEvent { delta: ScrollUnit::Pixel { x: dx, y: dy } })
            &&& (ignore_layout || h.contains_current) && is_line ==> step.2[0]
                == PointerEventType::Scroll(ScrollEvent { delta: ScrollUnit::Line { x: dx, y: dy } })
            &&& !(ignore_layout || h.contains_current) ==> step.2.len() == 0
        }),
{
}

impl EventDispatcher {
    /// How a widget's styles route pointer events: by its pointer-events style, all events
    /// when it has no styles or the style is unset or default.
    pub fn resolve_pointer_events(styles: Option<&KStyle>) -> (r: PointerEvents)
        requires
            styles matches Some(s) ==> !(s.pointer_events is Inherit),
        ensures
            r == (match styles {
                Some(s) => match s.pointer_events {
                    StyleProp::Value(p) => p,
                    _ => PointerEvents::All,
                },
                None => PointerEvents::All,
            }),
    {
        match styles {
            Some(s) => match &s.pointer_events {
                StyleProp::Value(p) => *p,
                _ => PointerEvents::All,
            },
            None => PointerEvents::All,
        }
    }

    /// Processes one input event for the widget `node`: `hit` tells where its layout lies
    /// relative to the cursor (`None` when it has no layout), `styles` are its computed
    /// styles, if any, and `ignore_layout` is set for the widget that captured the cursor.
    /// A mouse move sends a mouse-out when the cursor left the layout, makes a mouse-in
    /// candidate when it entered it and a hover candidate while it is over it, and records
    /// whether the cursor is over a widget that can contain it or wants it; a press makes a
    /// mouse-down candidate (and a focus candidate for a focusable widget) and may give the
    /// widget the cursor; a release makes a mouse-up candidate, and a click candidate when the
    /// widget saw the press; a scroll makes a scroll candidate. Returns the events sent at
    /// once and the candidates.
    pub fn process_pointer_events(
        &mut self,
        input_event: &InputEvent,
        node: WrappedIndex,
        hit: Option<LayoutHit>,
        styles: Option<&KStyle>,
        focusable: bool,
        ignore_layout: bool,
    ) -> (r: (Vec<(u64, PointerEventType)>, Vec<PointerEventType>))
        requires
            styles matches Some(s) ==> !(s.render_command is Inherit),
        ensures
            ({
                let can_contain = match styles {
                    Some(s) => Some(contains_cursor_style(*s)),
                    None => None,
                };
                pointer_step(*old(self), *input_event, node, hit, can_contain, focusable, ignore_layout)
                    == (*final(self), r.0@, r.1@)
            }),
            match (*input_event, hit) {
                (InputEvent::Scroll { dx, dy, is_line }, Some(h)) => {
                    &&& (ignore_layout || h.contains_current) && !is_line ==> r.1@
                        == seq![PointerEventType::Scroll(ScrollEvent { delta: ScrollUnit::Pixel { x: dx, y: dy } })]
                    &&& (ignore_layout || h.contains_current) && is_line ==> r.1@
                        == seq![PointerEventType::Scroll(ScrollEvent { delta: ScrollUnit::Line { x: dx, y: dy } })]
                    &&& !(ignore_layout || h.contains_current) ==> r.1@.len() == 0
                    &&& r.0@.len() == 0
                    &&& *final(self) == *old(self)
                },
                _ => true,
            },
    {
        let mut sent: Vec<(u64, PointerEventType)> = Vec::new();
        let mut candidates: Vec<PointerEventType> = Vec::new();
        let h = match hit {
            Some(h) => h,
            None => {
                return (sent, candidates);
            },
        };
        match input_event {
            InputEvent::MouseMoved(point) => {
                let cursor_event = self.get_cursor_event(*point);
                if !ignore_layout && h.contains_current != h.contains_event {
                    if h.contains_current {
                        sent.push((node.0, PointerEventType::MouseOut(cursor_event)));
                    } else {
                        candidates.push(PointerEventType::MouseIn(cursor_event));
                    }
                }
                if self.contains_cursor.is_none() || !self.contains_cursor.unwrap_or_default() {
                    if let Some(s) = styles {
                        if ignore_layout || Self::can_contain_cursor(s) {
                            self.contains_cursor = Some(h.contains_event);
                        }
                    }
                }
                if self.wants_cursor.is_none() || !self.wants_cursor.unwrap_or_default() {
                    if focusable {
                        self.wants_cursor = Some(h.contains_event);
                    }
                }
                if ignore_layout || h.contains_event {
                    candidates.push(PointerEventType::Hover(cursor_event));
                }
            },
            InputEvent::MouseLeftPress => {
                if ignore_layout || h.contains_current {
                    let cursor_event = self.get_cursor_event(self.current_mouse_position);
                    candidates.push(PointerEventType::MouseDown(cursor_event));
                    if focusable {
                        candidates.push(PointerEventType::Focus);
                    }
                    if self.has_cursor.is_none() {
                        if let Some(s) = styles {
                            if Self::can_contain_cursor(s) {
                                self.has_cursor = Some(node);
                            }
                        }
                    }
                }
            },
            InputEvent::MouseLeftRelease => {
                if ignore_layout || h.contains_current {
                    let cursor_event = self.get_cursor_event(self.current_mouse_position);
                    candidates.push(PointerEventType::MouseUp(cursor_event));
                    if self.previous_events.contains_event(node, EventKind::MouseDown) {
                        candidates.push(PointerEventType::Click(cursor_event));
                    }
                }
            },
            InputEvent::Scroll { dx, dy, is_line } => {
                if ignore_layout || h.contains_current {
                    let delta = if *is_line {
                        ScrollUnit::Line { x: *dx, y: *dy }
                    } else {
                        ScrollUnit::Pixel { x: *dx, y: *dy }
                    };
                    candidates.push(PointerEventType::Scroll(ScrollEvent { delta }));
                }
            },
            _ => {},
        }
        proof {
            let can_contain = match styles {
                Some(s) => Some(contains_cursor_style(*s)),
                None => None,
            };
            let step = pointer_step(*old(self), *input_event, node, hit, can_contain, focusable, ignore_layout);
            assert(sent@ =~= step.1);
            assert(candidates@ =~= step.2);
        }
        (sent, candidates)
    }
}

/// What a sequence of input events does for one widget whose pointer-events style is `pe`:
/// each mouse event is processed when the style routes events to the widget itself.
pub open spec fn widget_pointer_steps(
    d: EventDispatcher,
    events: Seq<InputEvent>,
    hits: Seq<Option<LayoutHit>>,
    node: WrappedIndex,
    pe: PointerEvents,
    can_contain: Option<bool>,
    focusable: bool,
    ignore_layout: bool,
) -> (EventDispatcher, Seq<(u64, PointerEventType)>, Seq<PointerEventType>)
    decreases events.len(),
{
    if events.len() == 0 {
        (d, Seq::empty(), Seq::empty())
    } else {
        let prev = widget_pointer_steps(d, events.drop_last(), hits, node, pe, can_contain, focusable, ignore_layout);
        let e = events.last();
        if category_of(e) == InputEventCategory::Mouse && (pe is All || pe is SelfOnly) {
            let step = pointer_step(prev.0, e, node, hits[events.len() - 1], can_contain, focusable, ignore_layout);
            (step.0, prev.1 + step.1, prev.2 + step.2)
        } else {
            prev
        }
    }
}

/// Whether pointer processing goes on to a widget's children: not when there is a mouse
/// event and the widget's style keeps events from its children.
pub open spec fn enters_children(events: Seq<InputEvent>, pe: PointerEvents) -> bool {
    !(exists|i: int| 0 <= i < events.len() && category_of(#[trigger] events[i]) == InputEventCategory::Mouse)
        || pe is All || pe is ChildrenOnly
}

impl EventDispatcher {
    /// Processes the mouse events of `input_events` for the widget `node` as its
    /// pointer-events style says: the widget itself gets them when the style is all or self
    /// only (see [`process_pointer_events`](Self::process_pointer_events); `hits` gives the
    /// layout hit for each event). Returns the events sent at once, the candidates, and
    /// whether its children are to be processed too.
    pub fn process_widget_pointer_events(
        &mut self,
        input_events: &[InputEvent],
        hits: &[Option<LayoutHit>],
        node: WrappedIndex,
        styles: Option<&KStyle>,
        focusable: bool,
        ignore_layout: bool,
    ) -> (r: (Vec<(u64, PointerEventType)>, Vec<PointerEventType>, bool))
        requires
            hits@.len() == input_events@.len(),
            styles matches Some(s) ==> !(s.render_command is Inherit) && !(s.pointer_events is Inherit),
        ensures
            ({
                let can_contain = match styles {
                    Some(s) => Some(contains_cursor_style(*s)),
                    None => None,
                };
                let pe = match styles {
                    Some(s) => match s.pointer_events {
                        StyleProp::Value(p) => p,
                        _ => PointerEvents::All,
                    },
                    None => PointerEvents::All,
                };
                &&& widget_pointer_steps(*old(self), input_events@, hits@, node, pe, can_contain, focusable, ignore_layout)
                    == (*final(self), r.0@, r.1@)
                &&& r.2 == enters_children(input_events@, pe)
            }),
    {
        let ghost d0 = *self;
        let ghost can_contain = match styles {
            Some(s) => Some(contains_cursor_style(*s)),
            None => None,
        };
        let pointer_events = Self::resolve_pointer_events(styles);
        let mut sent: Vec<(u64, PointerEventType)> = Vec::new();
        let mut candidates: Vec<PointerEventType> = Vec::new();
        let mut enter_children = true;
        let mut i: usize = 0;
        while i < input_events.len()
            invariant
                i <= input_events@.len(),
                hits@.len() == input_events@.len(),
                styles matches Some(s) ==> !(s.render_command is Inherit),
                can_contain == (match styles {
                    Some(s) => Some(contains_cursor_style(*s)),
                    None => None,
                }),
                widget_pointer_steps(d0, input_events@.take(i as int), hits@, node, pointer_events, can_contain, focusable, ignore_layout)
                    == (*self, sent@, candidates@),
                enter_children == enters_children(input_events@.take(i as int), pointer_events),
            decreases input_events@.len() - i,
        {
            let input_event = &input_events[i];
            proof {
                let t = input_events@.take(i + 1);
                assert(t.drop_last() =~= input_events@.take(i as int));
                assert(t.last() == input_events@[i as int]);
            }
            if input_event.category() == InputEventCategory::Mouse {
                match pointer_events {
                    PointerEvents::All | PointerEvents::SelfOnly => {
                        let (mut more_sent, mut more_candidates) = self.process_pointer_events(
                            input_event,
                            node,
                            hits[i],
                            styles,
                            focusable,
                            ignore_layout,
                        );
                        sent.append(&mut more_sent);
                        candidates.append(&mut more_candidates);
                        if matches!(pointer_events, PointerEvents::SelfOnly) {
                            enter_children = false;
                        }
                    },
                    PointerEvents::Blocked => {
                        enter_children = false;
                    },
                    PointerEvents::ChildrenOnly => {},
                }
            }
            proof {
                let t = input_events@.take(i + 1);
                if category_of(input_events@[i as int]) == InputEventCategory::Mouse {
                    assert(t[i as int] == input_events@[i as int]);
                }
                if exists|j: int| 0 <= j < i && category_of(#[trigger] input_events@.take(i as int)[j]) == InputEventCategory::Mouse {
                    let j = choose|j: int| 0 <= j < i && category_of(#[trigger] input_events@.take(i as int)[j]) == InputEventCategory::Mouse;
                    assert(t[j] == input_events@.take(i as int)[j]);
                }
                if exists|j: int| 0 <= j < i + 1 && category_of(#[trigger] t[j]) == InputEventCategory::Mouse {
                    let j = choose|j: int| 0 <= j < i + 1 && category_of(#[trigger] t[j]) == InputEventCategory::Mouse;
                    if j < i {
                        assert(input_events@.take(i as int)[j] == t[j]);
                    }
                }
            }
            i += 1;
        }
        proof {
            assert(input_events@.take(input_events@.len() as int) =~= input_events@);
        }
        (sent, candidates, enter_children)
    }
}

} // verus!
