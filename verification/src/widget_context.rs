use std::collections::HashMap;
use vstd::prelude::*;

use crate::context_entities::ContextEntities;
use crate::layout::{LayoutCache, Rect};
use crate::node::WrappedIndex;
use crate::tree::{shape_remove_all, Tree};
use crate::widget_state::WidgetState;

verus! {

broadcast use vstd::std_specs::hash::group_hash_axioms;

/// The context entity of type `context_type` that `n` sees: the one `n` provides itself,
/// else the one of its nearest ancestor in `tree` that provides one.
pub open spec fn context_lookup(ce: ContextEntities, tree: Tree, context_type: u64, n: u64) -> Option<u64>
    decreases tree.depth@[n],
    when tree.wf()
{
    match ce.provided(n, context_type) {
        Some(e) => Some(e),
        None => match tree.parent_of(n) {
            Some(p) => {
                proof {
                    tree.lemma_parent_shallower(n);
                }
                context_lookup(ce, tree, context_type, p.0)
            },
            None => None,
        },
    }
}

/// The bookkeeping a widget's render function works with: the widget tree of the last
/// render, the tree it builds for its own children, the context entities, the layout, the
/// widget states, and what is needed to reuse the entities of the children it spawns (the
/// tree of spawned widgets in order and how many children each parent spawned in this
/// render). The root context hands these over to it and takes them back afterwards.
pub struct KayakWidgetContext {
    pub old_tree: Tree,
    pub new_tree: Tree,
    pub context_entities: ContextEntities,
    pub layout_cache: LayoutCache,
    pub index: HashMap<u64, usize>,
    pub widget_state: WidgetState,
    pub order_tree: Tree,
    pub camera_entity: Option<u64>,
}

impl KayakWidgetContext {
    /// How many children `parent` has spawned in the current render.
    pub open spec fn spawned_count(self, parent: u64) -> usize {
        if self.index@.contains_key(parent) {
            self.index@[parent]
        } else {
            0
        }
    }

    /// A context for one widget, with an empty tree for the children it builds.
    pub fn new(
        old_tree: Tree,
        context_entities: ContextEntities,
        layout_cache: LayoutCache,
        widget_state: WidgetState,
        order_tree: Tree,
        index: HashMap<u64, usize>,
        camera_entity: Option<u64>,
    ) -> (r: Self)
        ensures
            r.old_tree == old_tree,
            r.new_tree.wf(),
            r.new_tree.root_node is None,
            r.new_tree.parents@ == Map::<u64, WrappedIndex>::empty(),
            r.context_entities == context_entities,
            r.layout_cache == layout_cache,
            r.widget_state == widget_state,
            r.order_tree == order_tree,
            r.index == index,
            r.camera_entity == camera_entity,
    {
        KayakWidgetContext {
            old_tree,
            new_tree: Tree::new(),
            context_entities,
            layout_cache,
            index,
            widget_state,
            order_tree,
            camera_entity,
        }
    }

    /// Replaces the tree of children built so far.
    pub fn store(&mut self, new_tree: Tree)
        ensures
            *final(self) == (KayakWidgetContext { new_tree, ..*old(self) }),
    {
        self.new_tree = new_tree;
    }

    /// Makes `context_entity` the context of type `context_type` that `parent_id` provides
    /// to its descendants; nothing happens without a parent.
    pub fn set_context_entity(&mut self, context_type: u64, parent_id: Option<u64>, context_entity: u64)
        ensures
            final(self).context_entities.view() == (match parent_id {
                Some(p) => old(self).context_entities.view().insert((p, context_type), context_entity),
                None => old(self).context_entities.view(),
            }),
            final(self).old_tree == old(self).old_tree,
            final(self).new_tree == old(self).new_tree,
            final(self).order_tree == old(self).order_tree,
            final(self).index == old(self).index,
    {
        if let Some(parent_id) = parent_id {
            self.context_entities.add_context_entity(context_type, parent_id, context_entity);
        }
    }

    /// Finds the closest matching context entity by traversing up the tree.
    pub fn get_context_entity(&self, context_type: u64, current_entity: u64) -> (r: Option<u64>)
        requires
            self.old_tree.wf(),
        ensures
            r == context_lookup(self.context_entities, self.old_tree, context_type, current_entity),
    {
        if let Some(entity) = self.context_entities.get_context_entity(context_type, current_entity) {
            return Some(entity);
        }
        let mut parent = self.old_tree.get_parent(WrappedIndex(current_entity));
        proof {
            if parent is Some {
                self.old_tree.lemma_parent_shallower(current_entity);
            }
        }
        while parent.is_some()
            invariant
                self.old_tree.wf(),
                match parent {
                    Some(p) => {
                        &&& self.old_tree.depth@.contains_key(p.0)
                        &&& context_lookup(self.context_entities, self.old_tree, context_type, current_entity)
                            == context_lookup(self.context_entities, self.old_tree, context_type, p.0)
                    },
                    None => context_lookup(self.context_entities, self.old_tree, context_type, current_entity)
                        is None,
                },
            decreases match parent {
                Some(p) => self.old_tree.depth@[p.0] + 1,
                None => 0,
            },
        {
            let p = parent.unwrap();
            if let Some(entity) = self.context_entities.get_context_entity(context_type, p.0) {
                return Some(entity);
            }
            parent = self.old_tree.get_parent(p);
            proof {
                if parent is Some {
                    self.old_tree.lemma_parent_shallower(p.0);
                }
            }
        }
        None
    }

    /// Removes all children of `entity` from the new tree.
    pub fn clear_children(&mut self, entity: u64)
        ensures
            final(self).new_tree.kids(entity) == Seq::<WrappedIndex>::empty(),
            final(self).new_tree.children@.dom() == old(self).new_tree.children@.dom().insert(entity),
            forall|k: u64| k != entity ==> #[trigger] final(self).new_tree.kids(k) == old(self).new_tree.kids(k),
            final(self).new_tree.parents == old(self).new_tree.parents,
            final(self).new_tree.root_node == old(self).new_tree.root_node,
            final(self).old_tree == old(self).old_tree,
            final(self).order_tree == old(self).order_tree,
            final(self).index == old(self).index,
    {
        self.new_tree.children.insert(entity, Vec::new());
    }

    /// The children of `entity` in the new tree, in order.
    pub fn get_children(&self, entity: u64) -> (r: Vec<u64>)
        ensures
            r@.len() == self.new_tree.kids(entity).len(),
            forall|i: int| 0 <= i < r@.len() ==> #[trigger] r@[i] == self.new_tree.kids(entity)[i].0,
    {
        children_of(&self.new_tree, entity)
    }

    /// Returns how many children `parent` has spawned in this render, and counts one more.
    fn get_and_add_index(&mut self, parent: u64) -> (r: usize)
        requires
            old(self).spawned_count(parent) < usize::MAX,
        ensures
            r == old(self).spawned_count(parent),
            final(self).index@ == old(self).index@.insert(parent, (r + 1) as usize),
            final(self).old_tree == old(self).old_tree,
            final(self).new_tree == old(self).new_tree,
            final(self).order_tree == old(self).order_tree,
    {
        let current_index = match self.index.get(&parent) {
            Some(i) => *i,
            None => 0,
        };
        self.index.insert(parent, current_index + 1);
        current_index
    }

    /// Creates or grabs the state entity of `widget_entity`: when it has none,
    /// `state_entity`, newly spawned with the initial state, becomes its state entity.
    pub fn use_state(&mut self, widget_entity: u64, state_entity: u64) -> (r: u64)
        ensures
            if old(self).widget_state.states().contains_key(widget_entity) {
                &&& r == old(self).widget_state.states()[widget_entity]
                &&& final(self).widget_state.states() == old(self).widget_state.states()
            } else {
                &&& r == state_entity
                &&& final(self).widget_state.states() == old(self).widget_state.states().insert(
                    widget_entity,
                    state_entity,
                )
            },
            old(self).widget_state.wf() && !old(self).widget_state.widgets().contains_key(state_entity)
                ==> final(self).widget_state.wf(),
            final(self).new_tree == old(self).new_tree,
            final(self).order_tree == old(self).order_tree,
    {
        self.widget_state.add(widget_entity, state_entity)
    }

    /// Grabs the existing state entity; `None` if there is none.
    pub fn get_state(&self, widget_entity: u64) -> (r: Option<u64>)
        ensures
            r == (if self.widget_state.states().contains_key(widget_entity) {
                Some(self.widget_state.states()[widget_entity])
            } else {
                None
            }),
    {
        self.widget_state.get(widget_entity)
    }

    /// The entity to reuse for a widget spawned under `parent_id`: the parent's child at the
    /// widget's position among the children spawned in this render (which counts the
    /// widget). `None` means a new entity must be spawned and then recorded with
    /// [`register_spawned_widget`](Self::register_spawned_widget).
    pub fn spawn_widget(&mut self, parent_id: Option<u64>) -> (r: Option<u64>)
        requires
            parent_id is Some ==> old(self).spawned_count(parent_id->0) < usize::MAX,
        ensures
            match parent_id {
                Some(p) => {
                    let i = old(self).spawned_count(p);
                    let children = old(self).order_tree.kids(p);
                    &&& r == (if i < children.len() {
                        Some(children[i as int].0)
                    } else {
                        None
                    })
                    &&& final(self).index@ == old(self).index@.insert(p, (i + 1) as usize)
                    &&& final(self).order_tree == old(self).order_tree
                    &&& final(self).new_tree == old(self).new_tree
                    &&& final(self).old_tree == old(self).old_tree
                },
                None => {
                    &&& r is None
                    &&& *final(self) == *old(self)
                },
            },
    {
        if let Some(parent_entity) = parent_id {
            let children = children_of(&self.order_tree, parent_entity);
            let index = self.get_and_add_index(parent_entity);
            if index < children.len() {
                return Some(children[index]);
            }
        }
        None
    }

    /// Records a newly spawned widget entity in the tree of spawned widgets, under its
    /// parent or as the root.
    pub fn register_spawned_widget(&mut self, entity: u64, parent_id: Option<u64>)
        ensures
            Tree::added(
                old(self).order_tree,
                final(self).order_tree,
                WrappedIndex(entity),
                match parent_id {
                    Some(p) => Some(WrappedIndex(p)),
                    None => None,
                },
            ),
            final(self).new_tree == old(self).new_tree,
            final(self).old_tree == old(self).old_tree,
            final(self).index == old(self).index,
    {
        let parent = match parent_id {
            Some(p) => Some(WrappedIndex(p)),
            None => None,
        };
        self.order_tree.add(WrappedIndex(entity), parent);
    }

    /// Removes each of `children_to_remove`, in turn, from the new tree (see
    /// [`Tree::remove`]).
    pub fn remove_children(&mut self, children_to_remove: Vec<u64>)
        ensures
            final(self).new_tree.shape() == shape_remove_all(old(self).new_tree.shape(), children_to_remove@),
            final(self).old_tree == old(self).old_tree,
            final(self).order_tree == old(self).order_tree,
            final(self).index == old(self).index,
            final(self).widget_state == old(self).widget_state,
            final(self).context_entities == old(self).context_entities,
    {
        let mut i: usize = 0;
        while i < children_to_remove.len()
            invariant
                i <= children_to_remove@.len(),
                self.new_tree.shape() == shape_remove_all(old(self).new_tree.shape(), children_to_remove@.take(i as int)),
                self.old_tree == old(self).old_tree,
                self.order_tree == old(self).order_tree,
                self.index == old(self).index,
                self.widget_state == old(self).widget_state,
                self.context_entities == old(self).context_entities,
            decreases children_to_remove@.len() - i,
        {
            proof {
                assert(children_to_remove@.take(i + 1).drop_last() =~= children_to_remove@.take(i as int));
            }
            self.new_tree.remove(WrappedIndex(children_to_remove[i]));
            i += 1;
        }
        proof {
            assert(children_to_remove@.take(children_to_remove@.len() as int) =~= children_to_remove@);
        }
    }

    /// Adds a new widget to the new tree with a given parent.
    ///
    /// A widget cannot be its own parent: that would close a cycle in the tree, and walks up
    /// or down the tree would never end.
    pub fn add_widget(&mut self, parent: Option<u64>, entity: u64)
        requires
            parent != Some(entity),
        ensures
            Tree::added(
                old(self).new_tree,
                final(self).new_tree,
                WrappedIndex(entity),
                match parent {
                    Some(p) => Some(WrappedIndex(p)),
                    None => None,
                },
            ),
            final(self).old_tree == old(self).old_tree,
            final(self).order_tree == old(self).order_tree,
            final(self).index == old(self).index,
    {
        let parent_index = match parent {
            Some(p) => Some(WrappedIndex(p)),
            None => None,
        };
        self.new_tree.add(WrappedIndex(entity), parent_index);
    }

    /// The layout rectangle of the widget, if it has one.
    pub fn get_layout(&self, widget_id: u64) -> (r: Option<Rect>)
        ensures
            r == (if self.layout_cache.rect@.contains_key(widget_id) {
                Some(self.layout_cache.rect@[widget_id])
            } else {
                None
            }),
    {
        match self.layout_cache.rect.get(&widget_id) {
            Some(rect) => Some(*rect),
            None => None,
        }
    }

    /// Consumes the context, giving back the tree of children it built.
    pub fn take(self) -> (r: Tree)
        ensures
            r == self.new_tree,
    {
        self.new_tree
    }
}

/// The children of `entity` in `tree`, in order.
fn children_of(tree: &Tree, entity: u64) -> (r: Vec<u64>)
    ensures
        r@.len() == tree.kids(entity).len(),
        forall|i: int| 0 <= i < r@.len() ==> #[trigger] r@[i] == tree.kids(entity)[i].0,
{
    let mut out: Vec<u64> = Vec::new();
    match tree.children.get(&entity) {
        Some(children) => {
            let mut i: usize = 0;
            while i < children.len()
                invariant
                    i <= children@.len(),
                    children@ == tree.kids(entity),
                    out@.len() == i,
                    forall|j: int| 0 <= j < i ==> #[trigger] out@[j] == children@[j].0,
                decreases children@.len() - i,
            {
                out.push(children[i].0);
                i += 1;
            }
        },
        None => {},
    }
    out
}

} // verus!
