use std::collections::HashMap;
use vstd::hash_map::StringHashMap;
use vstd::prelude::*;

use crate::context_entities::ContextEntities;
use crate::event_dispatcher::focused_id;
use crate::focus_tree::{lemma_no_focus_ancestor_in_empty, nearest_focus_ancestor, FocusTree};
use crate::layout::{LayoutCache, Rect};
use crate::node::WrappedIndex;
use crate::styles::units::CursorIcon;
use crate::tree::{shape_remove, Tree};
use crate::widget_state::WidgetState;

verus! {

broadcast use vstd::std_specs::hash::group_hash_axioms;

/// Marks a widget that was just mounted.
#[derive(Default)]
pub struct Mounted;

/// The type name of a widget, used to find out which systems to run for it.
#[derive(Debug, Clone, PartialEq, Eq)]
pub struct WidgetName(pub String);

impl Default for WidgetName {
    /// The name of a widget whose name was not given.
    fn default() -> (r: Self)
        ensures
            r.0@ == "NO_NAME"@,
    {
        WidgetName("NO_NAME".to_owned())
    }
}

impl From<String> for WidgetName {
    fn from(value: String) -> (r: Self) {
        WidgetName(value)
    }
}

impl vstd::std_specs::convert::FromSpecImpl<String> for WidgetName {
    open spec fn obeys_from_spec() -> bool {
        true
    }

    open spec fn from_spec(v: String) -> Self {
        WidgetName(v)
    }
}

impl From<WidgetName> for String {
    fn from(val: WidgetName) -> (r: Self) {
        val.0
    }
}

impl vstd::std_specs::convert::FromSpecImpl<WidgetName> for String {
    open spec fn obeys_from_spec() -> bool {
        true
    }

    open spec fn from_spec(v: WidgetName) -> Self {
        v.0
    }
}

/// How to obtain the entity of a widget being spawned.
#[derive(Debug, Clone, Copy, PartialEq, Eq)]
pub enum SpawnPlan {
    /// Reuse the entity recorded under the widget's key; it must be given its parent again.
    ReuseKeyed(u64),
    /// Reuse the parent's child entity at the widget's position.
    ReuseChild(u64),
    /// Spawn a new entity, then record it with
    /// [`register_spawned_widget`](KayakRootContext::register_spawned_widget).
    SpawnNew,
}

/// The text of a widget key, if any.
pub open spec fn key_view(key: Option<&str>) -> Option<Seq<char>> {
    match key {
        Some(k) => Some(k@),
        None => None,
    }
}

/// The widget bookkeeping of a user interface root: the widget tree and its layout, the
/// focus tree, widget states, and what is needed to reuse widget entities between renders
/// (the tree of spawned widgets in order, how many children each parent has spawned in the
/// current render, and the entities spawned under a key).
pub struct KayakRootContext {
    pub tree: Tree,
    pub layout_cache: LayoutCache,
    pub focus_tree: FocusTree,
    pub widget_state: WidgetState,
    pub context_entities: ContextEntities,
    pub order_tree: Tree,
    /// For each parent, how many children it has spawned in the current render.
    pub index: HashMap<u64, usize>,
    /// For each parent, the entities of the children spawned under a key.
    pub unique_ids: HashMap<u64, StringHashMap<u64>>,
    /// The parent of each entity spawned under a key.
    pub unique_ids_parents: HashMap<u64, u64>,
    /// The key of each entity spawned under a key.
    pub unique_id_keys: HashMap<u64, String>,
    pub current_cursor: CursorIcon,
    pub camera_entity: u64,
}

impl KayakRootContext {
    /// How many children `parent` has spawned in the current render.
    pub open spec fn spawned_count(self, parent: u64) -> usize {
        if self.index@.contains_key(parent) {
            self.index@[parent]
        } else {
            0
        }
    }

    /// The entities spawned under a key by `parent`.
    pub open spec fn keyed_children(self, parent: u64) -> Map<Seq<char>, u64> {
        if self.unique_ids@.contains_key(parent) {
            self.unique_ids@[parent]@
        } else {
            Map::empty()
        }
    }

    /// `new` is `old` after [`spawn_widget`](Self::spawn_widget) planned `r` for a widget
    /// with the key `key` under `parent_id`: a keyed widget reuses the entity recorded under
    /// its key; a widget without a key reuses the parent's child at the position it takes
    /// among the children spawned in this render (and counts itself); otherwise, and for the
    /// root, a new entity is to be spawned.
    pub open spec fn spawn_planned(
        old: KayakRootContext,
        new: KayakRootContext,
        key: Option<Seq<char>>,
        parent_id: Option<u64>,
        r: SpawnPlan,
    ) -> bool {
        match (parent_id, key) {
            (Some(p), Some(k)) => {
                &&& r == (if old.keyed_children(p).contains_key(k) {
                    SpawnPlan::ReuseKeyed(old.keyed_children(p)[k])
                } else {
                    SpawnPlan::SpawnNew
                })
                &&& new == old
            },
            (Some(p), None) => {
                let i = old.spawned_count(p);
                let children = old.order_tree.kids(p);
                &&& r == (if i < children.len() {
                    SpawnPlan::ReuseChild(children[i as int].0)
                } else {
                    SpawnPlan::SpawnNew
                })
                &&& new.index@ == old.index@.insert(p, (i + 1) as usize)
                &&& new.order_tree == old.order_tree
                &&& new.tree == old.tree
                &&& new.unique_ids == old.unique_ids
                &&& new.unique_ids_parents == old.unique_ids_parents
            },
            (None, _) => {
                &&& r == SpawnPlan::SpawnNew
                &&& new == old
            },
        }
    }

    /// `new` is `old` after [`register_spawned_widget`](Self::register_spawned_widget)
    /// recorded the new entity `entity` of a widget with the key `key` under `parent_id`:
    /// under its key when it has one, in the tree of spawned widgets otherwise; nothing for
    /// the root.
    pub open spec fn spawn_registered(
        old: KayakRootContext,
        new: KayakRootContext,
        entity: u64,
        key: Option<Seq<char>>,
        parent_id: Option<u64>,
    ) -> bool {
        &&& new.tree == old.tree
        &&& new.index == old.index
        &&& match (parent_id, key) {
            (Some(p), Some(k)) => {
                &&& new.unique_ids@.dom() == old.unique_ids@.dom().insert(p)
                &&& new.keyed_children(p) == old.keyed_children(p).insert(k, entity)
                &&& forall|q: u64| q != p ==> #[trigger] new.unique_ids@.get(q) == old.unique_ids@.get(q)
                &&& new.unique_ids_parents@ == old.unique_ids_parents@.insert(entity, p)
                &&& new.unique_id_keys@.dom() == old.unique_id_keys@.dom().insert(entity)
                &&& new.unique_id_keys@[entity]@ == k
                &&& forall|q: u64| q != entity ==> #[trigger] new.unique_id_keys@.get(q) == old.unique_id_keys@.get(q)
                &&& new.order_tree == old.order_tree
            },
            (Some(p), None) => {
                &&& Tree::added(old.order_tree, new.order_tree, WrappedIndex(entity), Some(WrappedIndex(p)))
                &&& new.unique_ids == old.unique_ids
                &&& new.unique_ids_parents == old.unique_ids_parents
                &&& new.unique_id_keys == old.unique_id_keys
            },
            (None, _) => new == old,
        }
    }

    /// A widget spawned without a key at the next free position of its parent, once its new
    /// entity is recorded, is reused when the parent spawns a widget at the same position
    /// again (in the next render, say, once the counts were cleared).
    pub proof fn lemma_positional_reuse(
        c0: KayakRootContext,
        c1: KayakRootContext,
        c2: KayakRootContext,
        c3: KayakRootContext,
        c4: KayakRootContext,
        parent: u64,
        entity: u64,
        r4: SpawnPlan,
    )
        requires
            c0.spawned_count(parent) == c0.order_tree.kids(parent).len(),
            Self::spawn_planned(c0, c1, None, Some(parent), SpawnPlan::SpawnNew),
            Self::spawn_registered(c1, c2, entity, None, Some(parent)),
            c3.order_tree == c2.order_tree,
            c3.spawned_count(parent) == c0.spawned_count(parent),
            Self::spawn_planned(c3, c4, None, Some(parent), r4),
        ensures
            r4 == SpawnPlan::ReuseChild(entity),
    {
        assert(c2.order_tree.kids(parent) == c0.order_tree.kids(parent).push(WrappedIndex(entity)));
    }

    /// A widget spawned with a key, once its new entity is recorded, is reused whenever its
    /// parent spawns a widget with the same key again, as long as no other entity was
    /// recorded under the parent's keys in between.
    pub proof fn lemma_keyed_reuse(
        c1: KayakRootContext,
        c2: KayakRootContext,
        c3: KayakRootContext,
        c4: KayakRootContext,
        parent: u64,
        key: Seq<char>,
        entity: u64,
        r4: SpawnPlan,
    )
        requires
            Self::spawn_registered(c1, c2, entity, Some(key), Some(parent)),
            c3.keyed_children(parent) == c2.keyed_children(parent),
            Self::spawn_planned(c3, c4, Some(key), Some(parent), r4),
        ensures
            r4 == SpawnPlan::ReuseKeyed(entity),
    {
    }

    /// A context with empty trees and no widget entities for the camera `camera_entity`.
    pub fn new(camera_entity: u64) -> (r: Self)
        ensures
            r.tree.wf(),
            r.tree.root_node is None,
            r.order_tree.wf(),
            r.order_tree.root_node is None,
            r.focus_tree.wf(),
            r.focus_tree.focus_view() is None,
            r.layout_cache.wf(),
            r.widget_state.wf(),
            r.context_entities.view() == Map::<(u64, u64), u64>::empty(),
            r.index@ == Map::<u64, usize>::empty(),
            r.unique_ids@.dom() == Set::<u64>::empty(),
            r.unique_ids_parents@ == Map::<u64, u64>::empty(),
            r.unique_id_keys@.dom() == Set::<u64>::empty(),
            r.current_cursor == CursorIcon::Default,
            r.camera_entity == camera_entity,
    {
        KayakRootContext {
            tree: Tree::new(),
            layout_cache: LayoutCache::new(),
            focus_tree: FocusTree::new(),
            widget_state: WidgetState::new(),
            context_entities: ContextEntities::new(),
            order_tree: Tree::new(),
            index: HashMap::new(),
            unique_ids: HashMap::new(),
            unique_ids_parents: HashMap::new(),
            unique_id_keys: HashMap::new(),
            current_cursor: CursorIcon::Default,
            camera_entity,
        }
    }

    /// Makes `context_entity` the context of type `context_type` that `parent_id` provides
    /// to its descendants; nothing happens without a parent.
    pub fn set_context_entity(&mut self, context_type: u64, parent_id: Option<u64>, context_entity: u64)
        ensures
            final(self).context_entities.view() == (match parent_id {
                Some(p) => old(self).context_entities.view().insert((p, context_type), context_entity),
                None => old(self).context_entities.view(),
            }),
            final(self).tree == old(self).tree,
            final(self).order_tree == old(self).order_tree,
            final(self).index == old(self).index,
            final(self).focus_tree == old(self).focus_tree,
    {
        if let Some(parent_id) = parent_id {
            self.context_entities.add_context_entity(context_type, parent_id, context_entity);
        }
    }

    /// The entity that has focus, or `None` if nothing is focused.
    pub fn get_current_focus(&self) -> (r: Option<u64>)
        ensures
            r == (match self.focus_tree.focus_view() {
                Some(i) => Some(i.0),
                None => None,
            }),
    {
        self.focus_tree.current()
    }

    /// The computed rectangle of the widget, if any.
    pub fn get_layout(&self, id: WrappedIndex) -> (r: Option<Rect>)
        ensures
            r == (if self.layout_cache.rect@.contains_key(id.0) {
                Some(self.layout_cache.rect@[id.0])
            } else {
                None
            }),
    {
        match self.layout_cache.rect.get(&id.0) {
            Some(rect) => Some(*rect),
            None => None,
        }
    }

    /// Whether any geometry flag is set for the widget.
    pub fn get_geometry_changed(&self, id: WrappedIndex) -> (r: bool)
        ensures
            r == (self.layout_cache.geometry_changed@.contains_key(id.0)
                && self.layout_cache.geometry_changed@[id.0].bits != 0),
    {
        self.layout_cache.has_geometry_changed(id)
    }

    /// Adds a widget to the widget tree, under `parent` or as the root, and registers it
    /// with the layout.
    pub fn add_widget(&mut self, parent: Option<u64>, entity: u64)
        ensures
            Tree::added(
                old(self).tree,
                final(self).tree,
                WrappedIndex(entity),
                match parent {
                    Some(p) => Some(WrappedIndex(p)),
                    None => None,
                },
            ),
            final(self).layout_cache.visible@ == old(self).layout_cache.visible@.insert(entity, true),
            final(self).layout_cache.rect@ == old(self).layout_cache.rect@,
            final(self).layout_cache.geometry_changed@ == old(self).layout_cache.geometry_changed@,
            final(self).focus_tree == old(self).focus_tree,
            final(self).order_tree == old(self).order_tree,
            final(self).index == old(self).index,
    {
        let parent_index = match parent {
            Some(p) => Some(WrappedIndex(p)),
            None => None,
        };
        self.tree.add(WrappedIndex(entity), parent_index);
        self.layout_cache.add(WrappedIndex(entity));
    }

    /// The children that `entity` spawned, in order.
    pub fn get_children_ordered(&self, entity: u64) -> (r: Vec<u64>)
        ensures
            r@.len() == self.order_tree.kids(entity).len(),
            forall|i: int| 0 <= i < r@.len() ==> #[trigger] r@[i] == self.order_tree.kids(entity)[i].0,
    {
        let mut out: Vec<u64> = Vec::new();
        match self.order_tree.children.get(&entity) {
            Some(children) => {
                let mut i: usize = 0;
                while i < children.len()
                    invariant
                        i <= children@.len(),
                        children@ == self.order_tree.kids(entity),
                        out@.len() == i,
                        forall|j: int| 0 <= j < i ==> #[trigger] out@[j] == children@[j].0,
                    decreases children@.len() - i,
                {
                    out.push(children[i].0);
                    i += 1;
                }
            },
            None => {},
        }
        out
    }

    /// Returns how many children `parent` has spawned in the current render, and counts
    /// one more.
    pub fn get_and_add_index(&mut self, parent: u64) -> (r: usize)
        requires
            old(self).spawned_count(parent) < usize::MAX,
        ensures
            r == old(self).spawned_count(parent),
            final(self).index@ == old(self).index@.insert(parent, (r + 1) as usize),
            final(self).tree == old(self).tree,
            final(self).order_tree == old(self).order_tree,
            final(self).unique_ids == old(self).unique_ids,
            final(self).unique_ids_parents == old(self).unique_ids_parents,
    {
        let current_index = match self.index.get(&parent) {
            Some(i) => *i,
            None => 0,
        };
        self.index.insert(parent, current_index + 1);
        current_index
    }

    /// Decides how to obtain the entity of a widget spawned under `parent_id`: a widget with
    /// a key reuses the entity recorded under that key; a widget without a key reuses the
    /// parent's child at its position among the children spawned in this render (and counts
    /// itself). Otherwise, and for the root, a new entity must be spawned.
    ///
    /// A keyed widget does not advance its parent's count: the count indexes the parent's
    /// children in the tree of spawned widgets, which keyed widgets never enter, so counting
    /// them would shift the unkeyed siblings that follow past their recorded positions and
    /// keep them from being reused (see [`lemma_positional_reuse`](Self::lemma_positional_reuse)).
    pub fn spawn_widget(&mut self, key: Option<&str>, parent_id: Option<u64>) -> (r: SpawnPlan)
        requires
            parent_id is Some && key is None ==> old(self).spawned_count(parent_id->0) < usize::MAX,
        ensures
            Self::spawn_planned(*old(self), *final(self), key_view(key), parent_id, r),
    {
        if let Some(parent_entity) = parent_id {
            if let Some(key) = key {
                if let Some(key_map) = self.unique_ids.get(&parent_entity) {
                    if let Some(child) = key_map.get(key) {
                        return SpawnPlan::ReuseKeyed(*child);
                    }
                }
                return SpawnPlan::SpawnNew;
            } else {
                let children = self.get_children_ordered(parent_entity);
                let index = self.get_and_add_index(parent_entity);
                if index < children.len() {
                    return SpawnPlan::ReuseChild(children[index]);
                }
                return SpawnPlan::SpawnNew;
            }
        }
        SpawnPlan::SpawnNew
    }

    /// Records a newly spawned widget entity: under its key when it has one, in the tree of
    /// spawned widgets otherwise. Nothing is recorded for the root.
    pub fn register_spawned_widget(&mut self, entity: u64, key: Option<&str>, parent_id: Option<u64>)
        ensures
            Self::spawn_registered(*old(self), *final(self), entity, key_view(key), parent_id),
    {
        if let Some(parent_entity) = parent_id {
            if let Some(key) = key {
                let mut key_map = match self.unique_ids.remove(&parent_entity) {
                    Some(m) => m,
                    None => StringHashMap::new(),
                };
                key_map.insert(key.to_owned(), entity);
                self.unique_ids.insert(parent_entity, key_map);
                self.unique_ids_parents.insert(entity, parent_entity);
                self.unique_id_keys.insert(entity, key.to_owned());
                proof {
                    assert(self.unique_ids@.dom() =~= old(self).unique_ids@.dom().insert(parent_entity));
                    assert(self.unique_id_keys@.dom() =~= old(self).unique_id_keys@.dom().insert(entity));
                }
            } else {
                self.order_tree.add(WrappedIndex(entity), Some(WrappedIndex(parent_entity)));
            }
        }
    }

    /// Starts an update pass: the focus tree is rebuilt to hold only the root of the widget
    /// tree, which gets focus, and the widget that had focus before is returned, to be given
    /// focus again by [`finish_update`](Self::finish_update).
    pub fn begin_update(&mut self) -> (r: Option<u64>)
        requires
            old(self).tree.wf(),
        ensures
            r == focused_id(old(self).focus_tree),
            final(self).focus_tree.wf(),
            forall|n: u64| #[trigger] final(self).focus_tree.tree_view().is_node(n)
                <==> old(self).tree.root_node == Some(WrappedIndex(n)),
            final(self).focus_tree.tree_view().root_node == old(self).tree.root_node,
            final(self).focus_tree.focus_view() == old(self).tree.root_node,
            final(self).tree == old(self).tree,
            final(self).layout_cache == old(self).layout_cache,
            final(self).widget_state == old(self).widget_state,
            final(self).order_tree == old(self).order_tree,
            final(self).index == old(self).index,
            final(self).unique_ids == old(self).unique_ids,
            final(self).unique_ids_parents == old(self).unique_ids_parents,
    {
        let current = self.focus_tree.current();
        self.focus_tree.clear();
        if let Some(root_node) = self.tree.root_node {
            proof {
                lemma_no_focus_ancestor_in_empty(self.tree, self.focus_tree.tree_view(), root_node.0);
            }
            self.focus_tree.add(root_node, &self.tree);
        }
        current
    }

    /// Ends an update pass: `old_focus`, the widget that had focus before it, gets focus
    /// again when it is still in the focus tree, and the counts of spawned children are
    /// cleared.
    pub fn finish_update(&mut self, old_focus: Option<u64>)
        ensures
            final(self).focus_tree.tree_view() == old(self).focus_tree.tree_view(),
            final(self).focus_tree.focus_view() == (match old_focus {
                Some(f) => if old(self).focus_tree.tree_view().is_node(f) {
                    Some(WrappedIndex(f))
                } else {
                    old(self).focus_tree.focus_view()
                },
                None => old(self).focus_tree.focus_view(),
            }),
            final(self).index@ == Map::<u64, usize>::empty(),
            final(self).tree == old(self).tree,
            final(self).layout_cache == old(self).layout_cache,
            final(self).widget_state == old(self).widget_state,
            final(self).order_tree == old(self).order_tree,
            final(self).unique_ids == old(self).unique_ids,
            final(self).unique_ids_parents == old(self).unique_ids_parents,
    {
        if let Some(old_focus) = old_focus {
            if self.focus_tree.contains(old_focus) {
                self.focus_tree.focus(old_focus);
            }
        }
        self.index.clear();
    }

    /// What an update pass does with `entity` once its widget has run, or was found gone.
    ///
    /// `exists` says whether the entity still exists, `held_by_props` whether a widget near it
    /// still holds it among the children handed to it, and `focusable` whether it is marked
    /// focusable. An entity that no longer exists and that no widget holds is dropped from
    /// the widget tree and from the tree of spawned widgets; one that exists and is focusable
    /// is added to the focus tree. Nothing else changes.
    pub fn settle_entity(&mut self, entity: u64, exists: bool, held_by_props: bool, focusable: bool)
        requires
            exists && focusable ==> old(self).tree.wf(),
        ensures
            !exists && !held_by_props ==> {
                &&& final(self).tree.shape() == shape_remove(old(self).tree.shape(), entity)
                &&& final(self).order_tree.shape() == shape_remove(old(self).order_tree.shape(), entity)
                &&& final(self).focus_tree == old(self).focus_tree
            },
            !exists && held_by_props ==> *final(self) == *old(self),
            exists && !focusable ==> *final(self) == *old(self),
            exists && focusable ==> {
                &&& final(self).tree == old(self).tree
                &&& final(self).order_tree == old(self).order_tree
                &&& match nearest_focus_ancestor(old(self).tree, old(self).focus_tree.tree_view(), entity) {
                    Some(a) => {
                        &&& Tree::added(old(self).focus_tree.tree_view(), final(self).focus_tree.tree_view(), WrappedIndex(entity), Some(a))
                        &&& final(self).focus_tree.focus_view() == old(self).focus_tree.focus_view()
                    },
                    None => if old(self).focus_tree.tree_view().root_node is None {
                        &&& Tree::added(old(self).focus_tree.tree_view(), final(self).focus_tree.tree_view(), WrappedIndex(entity), None)
                        &&& final(self).focus_tree.focus_view() == Some(WrappedIndex(entity))
                    } else {
                        &&& final(self).focus_tree.tree_view() == old(self).focus_tree.tree_view()
                        &&& final(self).focus_tree.focus_view() == old(self).focus_tree.focus_view()
                    },
                }
            },
            final(self).layout_cache == old(self).layout_cache,
            final(self).widget_state == old(self).widget_state,
            final(self).index == old(self).index,
            final(self).unique_ids == old(self).unique_ids,
            final(self).unique_ids_parents == old(self).unique_ids_parents,
    {
        if !exists {
            if !held_by_props {
                self.order_tree.remove(WrappedIndex(entity));
                self.tree.remove(WrappedIndex(entity));
            }
        } else if focusable {
            self.focus_tree.add(WrappedIndex(entity), &self.tree);
        }
    }
}

} // verus!
