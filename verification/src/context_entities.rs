use dashmap::DashMap;
use std::collections::hash_map::RandomState;
use vstd::prelude::*;

verus! {

/// The context entities that a `DashMap` holds, by parent entity and context type.
pub uninterp spec fn context_map_contents(m: DashMap<(u64, u64), u64, RandomState>) -> Map<(u64, u64), u64>;

/// Calls `DashMap::new`, which creates an empty map.
#[verifier::external_body]
fn context_map_new() -> (r: DashMap<(u64, u64), u64, RandomState>)
    ensures
        context_map_contents(r).dom() == Set::<(u64, u64)>::empty(),
{
    DashMap::new()
}

/// Calls `DashMap::insert`, which maps the key to `v` (the value it had before is dropped).
#[verifier::external_body]
fn context_map_insert(m: &mut DashMap<(u64, u64), u64, RandomState>, parent: u64, context_type: u64, v: u64)
    ensures
        context_map_contents(*final(m)) == context_map_contents(*old(m)).insert((parent, context_type), v),
{
    m.insert((parent, context_type), v);
}

/// Calls `DashMap::get`, which gives the value of the key, if any.
#[verifier::external_body]
fn context_map_get(m: &DashMap<(u64, u64), u64, RandomState>, parent: u64, context_type: u64) -> (r: Option<u64>)
    ensures
        r == (if context_map_contents(*m).contains_key((parent, context_type)) {
            Some(context_map_contents(*m)[(parent, context_type)])
        } else {
            None
        }),
{
    match m.get(&(parent, context_type)) {
        Some(entry) => Some(*entry.value()),
        None => None,
    }
}

/// The context entities provided under parent widgets, by the parent's entity and the
/// context's type (given as a number that stands for the type).
pub struct ContextEntities {
    ce: DashMap<(u64, u64), u64, RandomState>,
}

impl ContextEntities {
    /// The context entity of each (parent entity, context type) pair that has one.
    pub closed spec fn view(self) -> Map<(u64, u64), u64> {
        context_map_contents(self.ce)
    }

    /// The context entity provided by `parent` for `context_type`, if any.
    pub open spec fn provided(self, parent: u64, context_type: u64) -> Option<u64> {
        if self.view().contains_key((parent, context_type)) {
            Some(self.view()[(parent, context_type)])
        } else {
            None
        }
    }

    /// No context entities.
    pub fn new() -> (r: Self)
        ensures
            r.view() == Map::<(u64, u64), u64>::empty(),
    {
        let r = ContextEntities { ce: context_map_new() };
        assert(r.view() =~= Map::<(u64, u64), u64>::empty());
        r
    }

    /// Records `context_entity` as the context of type `context_type` that `parent_id`
    /// provides to its descendants.
    pub fn add_context_entity(&mut self, context_type: u64, parent_id: u64, context_entity: u64)
        ensures
            final(self).view() == old(self).view().insert((parent_id, context_type), context_entity),
    {
        context_map_insert(&mut self.ce, parent_id, context_type, context_entity);
    }

    /// The context entity of type `context_type` that `parent_id` provides, if any.
    pub fn get_context_entity(&self, context_type: u64, parent_id: u64) -> (r: Option<u64>)
        ensures
            r == self.provided(parent_id, context_type),
    {
        context_map_get(&self.ce, parent_id, context_type)
    }
}

} // verus!
