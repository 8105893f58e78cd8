use dashmap::DashMap;
use std::collections::hash_map::RandomState;
use vstd::prelude::*;

verus! {

/// The type `dashmap::DashMap`, a concurrent hash map; its contents are named by
/// [`dash_map_contents`].
#[verifier::external_type_specification]
#[verifier::external_body]
#[verifier::reject_recursive_types(K)]
#[verifier::reject_recursive_types(V)]
#[verifier::reject_recursive_types(S)]
pub struct ExDashMap<K, V, S>(DashMap<K, V, S>);

/// The key-value pairs that a `DashMap` holds.
pub uninterp spec fn dash_map_contents(m: DashMap<u64, u64, RandomState>) -> Map<u64, u64>;

/// Calls `DashMap::new`, which creates an empty map.
#[verifier::external_body]
fn dash_map_new() -> (r: DashMap<u64, u64, RandomState>)
    ensures
        dash_map_contents(r).dom() == Set::<u64>::empty(),
{
    DashMap::new()
}

/// Calls `DashMap::insert`, which maps `k` to `v` and returns the value `k` had before,
/// if any.
#[verifier::external_body]
fn dash_map_insert(m: &mut DashMap<u64, u64, RandomState>, k: u64, v: u64) -> (r: Option<u64>)
    ensures
        dash_map_contents(*final(m)) == dash_map_contents(*old(m)).insert(k, v),
        r == (if dash_map_contents(*old(m)).contains_key(k) {
            Some(dash_map_contents(*old(m))[k])
        } else {
            None
        }),
{
    m.insert(k, v)
}

/// Calls `DashMap::get`, which gives the value of `k`, if any.
#[verifier::external_body]
fn dash_map_get(m: &DashMap<u64, u64, RandomState>, k: u64) -> (r: Option<u64>)
    ensures
        r == (if dash_map_contents(*m).contains_key(k) {
            Some(dash_map_contents(*m)[k])
        } else {
            None
        }),
{
    match m.get(&k) {
        Some(entry) => Some(*entry.value()),
        None => None,
    }
}

/// Calls `DashMap::remove`, which removes `k` and returns its value, if any.
#[verifier::external_body]
fn dash_map_remove(m: &mut DashMap<u64, u64, RandomState>, k: u64) -> (r: Option<u64>)
    ensures
        dash_map_contents(*final(m)) == dash_map_contents(*old(m)).remove(k),
        r == (if dash_map_contents(*old(m)).contains_key(k) {
            Some(dash_map_contents(*old(m))[k])
        } else {
            None
        }),
{
    match m.remove(&k) {
        Some((_, v)) => Some(v),
        None => None,
    }
}

/// Calls `DashMap::contains_key`, which tells whether `k` has a value.
#[verifier::external_body]
fn dash_map_contains_key(m: &DashMap<u64, u64, RandomState>, k: u64) -> (r: bool)
    ensures
        r == dash_map_contents(*m).contains_key(k),
{
    m.contains_key(&k)
}

/// Stores mappings between widget entities and their corresponding state entities.
pub struct WidgetState {
    /// Widget entity to state entity
    mapping: DashMap<u64, u64, RandomState>,
    /// State entity to widget entity
    reverse_mapping: DashMap<u64, u64, RandomState>,
}

impl WidgetState {
    /// The state entity of each widget entity that has one.
    pub closed spec fn states(self) -> Map<u64, u64> {
        dash_map_contents(self.mapping)
    }

    /// The widget entity of each state entity.
    pub closed spec fn widgets(self) -> Map<u64, u64> {
        dash_map_contents(self.reverse_mapping)
    }

    /// The two mappings are inverse to each other.
    pub open spec fn wf(self) -> bool {
        &&& forall|w: u64| #[trigger] self.states().contains_key(w) ==> {
            &&& self.widgets().contains_key(self.states()[w])
            &&& self.widgets()[self.states()[w]] == w
        }
        &&& forall|s: u64| #[trigger] self.widgets().contains_key(s) ==> {
            &&& self.states().contains_key(self.widgets()[s])
            &&& self.states()[self.widgets()[s]] == s
        }
    }

    /// No widget has a state entity.
    pub fn new() -> (r: Self)
        ensures
            r.wf(),
            r.states() == Map::<u64, u64>::empty(),
            r.widgets() == Map::<u64, u64>::empty(),
    {
        WidgetState { mapping: dash_map_new(), reverse_mapping: dash_map_new() }
    }

    /// Returns the state entity of `widget_entity` if it has one; otherwise records
    /// `state_entity`, a newly spawned entity holding the widget's initial state, as its
    /// state entity and returns it.
    pub fn add(&mut self, widget_entity: u64, state_entity: u64) -> (r: u64)
        ensures
            if old(self).states().contains_key(widget_entity) {
                &&& r == old(self).states()[widget_entity]
                &&& final(self).states() == old(self).states()
                &&& final(self).widgets() == old(self).widgets()
            } else {
                &&& r == state_entity
                &&& final(self).states() == old(self).states().insert(widget_entity, state_entity)
                &&& final(self).widgets() == old(self).widgets().insert(state_entity, widget_entity)
            },
            old(self).wf() && !old(self).widgets().contains_key(state_entity) ==> final(self).wf(),
    {
        if dash_map_contains_key(&self.mapping, widget_entity) {
            dash_map_get(&self.mapping, widget_entity).unwrap()
        } else {
            dash_map_insert(&mut self.mapping, widget_entity, state_entity);
            dash_map_insert(&mut self.reverse_mapping, state_entity, widget_entity);
            state_entity
        }
    }

    /// Attempts to get a state entity
    pub fn get(&self, widget_entity: u64) -> (r: Option<u64>)
        ensures
            r == (if self.states().contains_key(widget_entity) {
                Some(self.states()[widget_entity])
            } else {
                None
            }),
    {
        dash_map_get(&self.mapping, widget_entity)
    }

    /// The widget entity a state entity belongs to, if any.
    pub fn get_widget_entity(&self, state_entity: u64) -> (r: Option<u64>)
        ensures
            r == (if self.widgets().contains_key(state_entity) {
                Some(self.widgets()[state_entity])
            } else {
                None
            }),
    {
        dash_map_get(&self.reverse_mapping, state_entity)
    }

    /// Forgets the state entity of `widget_entity`, returning it.
    pub fn remove(&mut self, widget_entity: u64) -> (r: Option<u64>)
        ensures
            r == (if old(self).states().contains_key(widget_entity) {
                Some(old(self).states()[widget_entity])
            } else {
                None
            }),
            final(self).states() == old(self).states().remove(widget_entity),
            final(self).widgets() == (match r {
                Some(s) => old(self).widgets().remove(s),
                None => old(self).widgets(),
            }),
            old(self).wf() ==> final(self).wf(),
    {
        let state_entity = dash_map_remove(&mut self.mapping, widget_entity);
        if let Some(state_entity) = state_entity {
            dash_map_remove(&mut self.reverse_mapping, state_entity);
        }
        proof {
            if old(self).wf() {
                let o = *old(self);
                assert forall|w: u64| #[trigger] self.states().contains_key(w) implies {
                    &&& self.widgets().contains_key(self.states()[w])
                    &&& self.widgets()[self.states()[w]] == w
                } by {
                    assert(o.states().contains_key(w) && w != widget_entity);
                    if let Some(s0) = state_entity {
                        assert(o.widgets()[o.states()[widget_entity]] == widget_entity);
                        assert(o.states()[w] != s0);
                    }
                }
                assert forall|st: u64| #[trigger] self.widgets().contains_key(st) implies {
                    &&& self.states().contains_key(self.widgets()[st])
                    &&& self.states()[self.widgets()[st]] == st
                } by {
                    assert(o.widgets().contains_key(st));
                    if let Some(s0) = state_entity {
                        assert(st != s0);
                        assert(o.states()[o.widgets()[st]] == st);
                        assert(o.widgets()[st] != widget_entity);
                    } else {
                        assert(o.states()[o.widgets()[st]] == st);
                        assert(o.widgets()[st] != widget_entity);
                    }
                }
            }
        }
        state_entity
    }

    /// A widget's state entity leads back to the widget, and a state entity's widget leads
    /// back to the state entity.
    pub proof fn lemma_round_trip(self, widget_entity: u64, state_entity: u64)
        requires
            self.wf(),
        ensures
            self.states().contains_key(widget_entity) ==> self.widgets()[self.states()[widget_entity]]
                == widget_entity,
            self.widgets().contains_key(state_entity) ==> self.states()[self.widgets()[state_entity]]
                == state_entity,
    {
    }
}

} // verus!
