use std::collections::HashMap;
use vstd::prelude::*;

use crate::node::WrappedIndex;
use crate::tree::Tree;

verus! {

broadcast use vstd::std_specs::hash::group_hash_axioms;

/// Marks a widget that can receive focus.
#[derive(Default, Clone, Copy)]
pub struct Focusable;

/// The tree of focusable widgets and the widget that currently has focus.
pub struct FocusTree {
    tree: Tree,
    current_focus: Option<WrappedIndex>,
}

impl Default for FocusTree {
    /// An empty focus tree with nothing focused.
    fn default() -> (r: FocusTree)
        ensures
            r.wf(),
            r.tree_view().root_node is None,
            r.tree_view().parents@ == Map::<u64, WrappedIndex>::empty(),
            r.tree_view().children@ == Map::<u64, Vec<WrappedIndex>>::empty(),
            r.focus_view() is None,
    {
        FocusTree::new()
    }
}

/// Tracks the focusability of widgets, following the rule that focusability set by a widget
/// itself always overrides focusability set by its parent.
#[derive(Default)]
pub struct FocusTracker {
    /// The focusability as set by the parent (i.e. from its props)
    parents: HashMap<u64, bool>,
    /// The focusability as set by the widget itself (i.e. from its render function)
    widgets: HashMap<u64, bool>,
}

/// The nearest strict ancestor of `n` in `widgets` that is a node of `focus`, if any.
pub open spec fn nearest_focus_ancestor(widgets: Tree, focus: Tree, n: u64) -> Option<WrappedIndex>
    decreases widgets.depth@[n],
    when widgets.wf()
{
    match widgets.parent_of(n) {
        Some(p) => {
            proof {
                widgets.lemma_parent_shallower(n);
            }
            if focus.is_node(p.0) {
                Some(p)
            } else {
                nearest_focus_ancestor(widgets, focus, p.0)
            }
        },
        None => None,
    }
}

/// A focus tree without nodes holds no ancestor of any widget.
pub proof fn lemma_no_focus_ancestor_in_empty(widgets: Tree, focus: Tree, n: u64)
    requires
        widgets.wf(),
        forall|m: u64| !(#[trigger] focus.is_node(m)),
    ensures
        nearest_focus_ancestor(widgets, focus, n) is None,
    decreases widgets.depth@[n],
{
    match widgets.parent_of(n) {
        Some(p) => {
            widgets.lemma_parent_shallower(n);
            lemma_no_focus_ancestor_in_empty(widgets, focus, p.0);
        },
        None => {},
    }
}

impl FocusTree {
    /// The tree of focusable widgets.
    pub closed spec fn tree_view(self) -> Tree {
        self.tree
    }

    /// The widget that currently has focus.
    pub closed spec fn focus_view(self) -> Option<WrappedIndex> {
        self.current_focus
    }

    /// The focus tree is well formed (acyclic, with consistent links).
    pub open spec fn wf(self) -> bool {
        self.tree_view().wf()
    }

    /// An empty focus tree with nothing focused.
    pub fn new() -> (r: FocusTree)
        ensures
            r.wf(),
            r.tree_view().root_node is None,
            r.tree_view().parents@ == Map::<u64, WrappedIndex>::empty(),
            r.tree_view().children@ == Map::<u64, Vec<WrappedIndex>>::empty(),
            r.focus_view() is None,
    {
        FocusTree { tree: Tree::new(), current_focus: None }
    }

    /// Adds the focusable `index` to the tree.
    ///
    /// It is placed under its nearest ancestor in `widget_context` that is already in the focus
    /// tree. Without such an ancestor it becomes the root, and gets focus, when the focus tree
    /// is empty; when the focus tree already has a root, nothing changes.
    pub fn add(&mut self, index: WrappedIndex, widget_context: &Tree)
        requires
            widget_context.wf(),
        ensures
            match nearest_focus_ancestor(*widget_context, old(self).tree_view(), index.0) {
                Some(a) => {
                    &&& Tree::added(old(self).tree_view(), final(self).tree_view(), index, Some(a))
                    &&& final(self).focus_view() == old(self).focus_view()
                },
                None => if old(self).tree_view().root_node is None {
                    &&& Tree::added(old(self).tree_view(), final(self).tree_view(), index, None)
                    &&& final(self).focus_view() == Some(index)
                } else {
                    &&& final(self).tree_view() == old(self).tree_view()
                    &&& final(self).focus_view() == old(self).focus_view()
                },
            },
            old(self).wf() && !old(self).tree_view().is_node(index.0) ==> final(self).wf(),
    {
        let mut current_index = index;
        loop
            invariant_except_break
                widget_context.wf(),
                *self == *old(self),
                nearest_focus_ancestor(*widget_context, self.tree_view(), index.0)
                    == nearest_focus_ancestor(*widget_context, self.tree_view(), current_index.0),
            ensures
                *self == *old(self),
                nearest_focus_ancestor(*widget_context, self.tree_view(), index.0) is None,
            decreases widget_context.depth_of(current_index.0),
        {
            match widget_context.get_parent(current_index) {
                Some(parent) => {
                    current_index = parent;
                    if self.tree.contains(parent) {
                        self.tree.add(index, Some(parent));
                        return;
                    }
                },
                None => {
                    break;
                },
            }
        }
        if self.tree.root_node.is_none() {
            self.tree.add(index, None);
            self.focus(index.0);
        }
    }

    /// Removes `index` from the tree. Its children take its place; removing the root empties
    /// the tree. When `index` had focus, focus returns to the root.
    pub fn remove(&mut self, index: WrappedIndex)
        requires
            old(self).wf(),
        ensures
            final(self).wf(),
            final(self).focus_view() == (if old(self).focus_view() == Some(index) {
                old(self).tree_view().root_node
            } else {
                old(self).focus_view()
            }),
            if old(self).tree_view().root_node == Some(index) {
                &&& final(self).tree_view().root_node is None
                &&& final(self).tree_view().parents@ == Map::<u64, WrappedIndex>::empty()
            } else {
                Tree::reparented(old(self).tree_view(), final(self).tree_view(), index)
            },
    {
        if self.current_focus == Some(index) {
            self.current_focus = self.tree.root_node;
        }
        if self.tree.root_node == Some(index) {
            self.tree = Tree::new();
        } else {
            self.tree.remove_and_reparent(index);
        }
    }

    /// Whether `index` is in the tree.
    pub fn contains(&self, index: u64) -> (r: bool)
        ensures
            r == self.tree_view().is_node(index),
    {
        self.tree.contains(WrappedIndex(index))
    }

    /// Empties the tree and removes the current focus.
    pub fn clear(&mut self)
        ensures
            final(self).wf(),
            final(self).tree_view().root_node is None,
            final(self).tree_view().parents@ == Map::<u64, WrappedIndex>::empty(),
            final(self).tree_view().children@ == Map::<u64, Vec<WrappedIndex>>::empty(),
            final(self).focus_view() is None,
    {
        self.tree = Tree::new();
        self.blur();
    }

    /// Gives focus to `index`.
    pub fn focus(&mut self, index: u64)
        ensures
            final(self).tree_view() == old(self).tree_view(),
            final(self).focus_view() == Some(WrappedIndex(index)),
    {
        self.current_focus = Some(WrappedIndex(index));
    }

    /// Removes the current focus, returning focus to the root.
    pub fn blur(&mut self)
        ensures
            final(self).tree_view() == old(self).tree_view(),
            final(self).focus_view() == old(self).tree_view().root_node,
    {
        self.current_focus = self.tree.root_node;
    }

    /// The widget that currently has focus.
    pub fn current(&self) -> (r: Option<u64>)
        ensures
            r == (match self.focus_view() {
                Some(i) => Some(i.0),
                None => None,
            }),
    {
        match self.current_focus {
            Some(i) => Some(i.0),
            None => None,
        }
    }

    /// Moves focus to the next focusable widget in pre-order, cycling back to the root.
    pub fn next(&mut self) -> (r: Option<u64>)
        requires
            old(self).wf(),
        ensures
            final(self).tree_view() == old(self).tree_view(),
            final(self).focus_view() == old(self).tree_view().preorder_next(old(self).focus_view()),
            r == (match final(self).focus_view() {
                Some(i) => Some(i.0),
                None => None,
            }),
    {
        self.current_focus = self.peek_next(self.current_focus);
        self.current()
    }

    /// Moves focus to the previous focusable widget in pre-order, cycling back to the last one.
    pub fn prev(&mut self) -> (r: Option<u64>)
        requires
            old(self).wf(),
        ensures
            final(self).tree_view() == old(self).tree_view(),
            final(self).focus_view() == old(self).tree_view().preorder_prev(old(self).focus_view()),
            r == (match final(self).focus_view() {
                Some(i) => Some(i.0),
                None => None,
            }),
    {
        self.current_focus = self.peek_prev(self.current_focus);
        self.current()
    }

    /// The next focusable widget after `current_focus` in pre-order, without changing focus:
    /// its first child, else its next sibling, else the next sibling of its nearest ancestor
    /// that has one, else the root.
    pub fn peek_next(&self, current_focus: Option<WrappedIndex>) -> (r: Option<WrappedIndex>)
        requires
            self.wf(),
        ensures
            r == self.tree_view().preorder_next(current_focus),
    {
        if let Some(index) = current_focus {
            if let Some(child) = self.tree.get_first_child(index) {
                return Some(child);
            }
            if let Some(sibling) = self.tree.get_next_sibling(index) {
                return Some(sibling);
            }
            let mut next = index;
            loop
                invariant_except_break
                    self.wf(),
                    self.tree.next_sibling(next.0) is None,
                    self.tree.first_child(index.0) is None,
                    current_focus == Some(index),
                    self.tree.up_next(index.0) == self.tree.up_next(next.0),
                ensures
                    self.tree.up_next(index.0) is None,
                decreases self.tree.depth_of(next.0),
            {
                match self.tree.get_parent(next) {
                    Some(parent) => {
                        if let Some(uncle) = self.tree.get_next_sibling(parent) {
                            assert(self.tree.up_next(next.0) == self.tree.up_next(parent.0));
                            assert(self.tree.up_next(parent.0) == Some(uncle));
                            return Some(uncle);
                        }
                        next = parent;
                    },
                    None => {
                        break;
                    },
                }
            }
        }
        self.tree.root_node
    }

    /// The previous focusable widget before `current_focus` in pre-order, without changing
    /// focus: the last descendant of its previous sibling, else its parent, else the last
    /// descendant of itself (wrapping around from the root).
    pub fn peek_prev(&self, current_focus: Option<WrappedIndex>) -> (r: Option<WrappedIndex>)
        requires
            self.wf(),
        ensures
            r == self.tree_view().preorder_prev(current_focus),
    {
        if let Some(index) = current_focus {
            if let Some(sibling) = self.tree.get_prev_sibling(index) {
                return Some(self.descend_last(sibling));
            }
            if let Some(parent) = self.tree.get_parent(index) {
                return Some(parent);
            }
            return Some(self.descend_last(index));
        }
        self.tree.root_node
    }

    /// Follows last children down from `start`.
    fn descend_last(&self, start: WrappedIndex) -> (r: WrappedIndex)
        requires
            self.wf(),
        ensures
            r == self.tree.last_desc(start.0),
    {
        let mut next = start;
        loop
            invariant_except_break
                self.wf(),
                self.tree.last_desc(start.0) == self.tree.last_desc(next.0),
            ensures
                self.tree.last_desc(start.0) == next,
            decreases self.tree.bound() - self.tree.depth_of(next.0),
        {
            match self.tree.get_last_child(next) {
                Some(child) => {
                    next = child;
                },
                None => {
                    break;
                },
            }
        }
        next
    }
}

impl FocusTree {
    /// Moving focus forward and then back returns focus to the widget that had it, for every
    /// focused widget of a well-formed focus tree.
    pub proof fn lemma_next_then_prev(self)
        requires
            self.wf(),
            self.focus_view() matches Some(f) && self.tree_view().is_node(f.0),
        ensures
            self.tree_view().preorder_prev(self.tree_view().preorder_next(self.focus_view()))
                == self.focus_view(),
    {
        self.tree_view().lemma_prev_undoes_next(self.focus_view()->0);
    }

    /// Moving focus back and then forward returns focus to the widget that had it, for every
    /// focused widget of a well-formed focus tree.
    pub proof fn lemma_prev_then_next(self)
        requires
            self.wf(),
            self.focus_view() matches Some(f) && self.tree_view().is_node(f.0),
        ensures
            self.tree_view().preorder_next(self.tree_view().preorder_prev(self.focus_view()))
                == self.focus_view(),
    {
        self.tree_view().lemma_next_undoes_prev(self.focus_view()->0);
    }

    /// Moving focus forward or back from any focused widget of the tree, or from no focus,
    /// lands on a widget of the tree whenever the tree is not empty.
    pub proof fn lemma_navigation_stays_in_tree(self)
        requires
            self.wf(),
            self.tree_view().root_node is Some,
            self.focus_view() matches Some(f) ==> self.tree_view().is_node(f.0),
        ensures
            self.tree_view().preorder_next(self.focus_view()) matches Some(n)
                && self.tree_view().is_node(n.0),
            self.tree_view().preorder_prev(self.focus_view()) matches Some(n)
                && self.tree_view().is_node(n.0),
    {
        self.tree_view().lemma_preorder_in_tree(self.focus_view());
    }
}

impl FocusTracker {
    /// The focusability settings made by parents.
    pub closed spec fn parent_settings(self) -> Map<u64, bool> {
        self.parents@
    }

    /// The focusability settings made by widgets themselves.
    pub closed spec fn widget_settings(self) -> Map<u64, bool> {
        self.widgets@
    }

    /// The focusability of `n`: its own setting if it made one, else its parent's, else none.
    pub open spec fn focusability(self, n: u64) -> Option<bool> {
        if self.widget_settings().contains_key(n) {
            Some(self.widget_settings()[n])
        } else if self.parent_settings().contains_key(n) {
            Some(self.parent_settings()[n])
        } else {
            None
        }
    }

    /// `m` after recording `focusable` for `n`: a stored value, or none at all.
    pub open spec fn with_setting(m: Map<u64, bool>, n: u64, focusable: Option<bool>) -> Map<u64, bool> {
        match focusable {
            Some(f) => m.insert(n, f),
            None => m.remove(n),
        }
    }

    /// `new` is `old` after `set_focusability(index, focusable, is_parent_defined)`.
    pub open spec fn setting_recorded(
        old: FocusTracker,
        new: FocusTracker,
        index: u64,
        focusable: Option<bool>,
        is_parent_defined: bool,
    ) -> bool {
        if is_parent_defined {
            &&& new.parent_settings() == Self::with_setting(old.parent_settings(), index, focusable)
            &&& new.widget_settings() == old.widget_settings()
        } else {
            &&& new.widget_settings() == Self::with_setting(old.widget_settings(), index, focusable)
            &&& new.parent_settings() == old.parent_settings()
        }
    }

    /// An empty tracker.
    pub fn new() -> (r: FocusTracker)
        ensures
            r.parent_settings() == Map::<u64, bool>::empty(),
            r.widget_settings() == Map::<u64, bool>::empty(),
    {
        FocusTracker { parents: HashMap::new(), widgets: HashMap::new() }
    }

    /// Sets the focusability of a widget: `Some(true)` focusable, `Some(false)` not focusable,
    /// `None` either. `is_parent_defined` tells whether the setting comes from the parent
    /// (its props) or from the widget itself (its render function).
    pub fn set_focusability(&mut self, index: WrappedIndex, focusable: Option<bool>, is_parent_defined: bool)
        ensures
            Self::setting_recorded(*old(self), *final(self), index.0, focusable, is_parent_defined),
    {
        if is_parent_defined {
            match focusable {
                Some(f) => {
                    self.parents.insert(index.0, f);
                },
                None => {
                    self.parents.remove(&index.0);
                },
            }
        } else {
            match focusable {
                Some(f) => {
                    self.widgets.insert(index.0, f);
                },
                None => {
                    self.widgets.remove(&index.0);
                },
            }
        }
    }

    /// The focusability of the given widget: its own setting takes precedence over its
    /// parent's.
    pub fn get_focusability(&self, index: WrappedIndex) -> (r: Option<bool>)
        ensures
            r == self.focusability(index.0),
    {
        match self.widgets.get(&index.0) {
            Some(f) => Some(*f),
            None => match self.parents.get(&index.0) {
                Some(f) => Some(*f),
                None => None,
            },
        }
    }

    /// A widget's own setting is what its focusability reads back.
    pub proof fn lemma_own_setting_read_back(old: FocusTracker, new: FocusTracker, index: u64, f: bool)
        requires
            Self::setting_recorded(old, new, index, Some(f), false),
        ensures
            new.focusability(index) == Some(f),
    {
    }

    /// A setting made by the parent never overrides a setting the widget made itself.
    pub proof fn lemma_parent_never_overrides(
        old: FocusTracker,
        new: FocusTracker,
        index: u64,
        focusable: Option<bool>,
    )
        requires
            Self::setting_recorded(old, new, index, focusable, true),
            old.widget_settings().contains_key(index),
        ensures
            new.focusability(index) == old.focusability(index),
    {
    }

    /// Clearing a widget's own setting falls back to its parent's setting.
    pub proof fn lemma_clear_falls_back_to_parent(old: FocusTracker, new: FocusTracker, index: u64)
        requires
            Self::setting_recorded(old, new, index, None, false),
        ensures
            new.focusability(index) == (if old.parent_settings().contains_key(index) {
                Some(old.parent_settings()[index])
            } else {
                None
            }),
    {
    }

    /// Settings for one widget leave the focusability of every other widget unchanged.
    pub proof fn lemma_settings_are_per_widget(
        old: FocusTracker,
        new: FocusTracker,
        index: u64,
        other: u64,
        focusable: Option<bool>,
        is_parent_defined: bool,
    )
        requires
            Self::setting_recorded(old, new, index, focusable, is_parent_defined),
            other != index,
        ensures
            new.focusability(other) == old.focusability(other),
    {
    }
}

} // verus!
