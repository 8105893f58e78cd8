use indexmap::IndexMap;
use std::collections::hash_map::RandomState;
use std::collections::HashSet;
use vstd::prelude::*;

use crate::layout::{GeometryChanged, Layout, LayoutCache, LayoutEvent, Rect};
use crate::node::WrappedIndex;
use crate::tree::Tree;

verus! {

broadcast use vstd::std_specs::hash::group_hash_axioms;

/// `indexmap::IndexMap`, an insertion-ordered hash map, carried through opaquely.
#[verifier::external_type_specification]
#[verifier::external_body]
#[verifier::reject_recursive_types(K)]
#[verifier::reject_recursive_types(V)]
#[verifier::reject_recursive_types(S)]
pub struct ExIndexMap<K, V, S>(IndexMap<K, V, S>);

/// The entries of an `IndexMap` from node ids to geometry flag bits, in their order.
pub uninterp spec fn index_map_entries(m: IndexMap<u64, u8, RandomState>) -> Seq<(u64, u8)>;

/// Whether an entry of `s` has the key `k`.
pub open spec fn has_key(s: Seq<(u64, u8)>, k: u64) -> bool {
    exists|i: int| 0 <= i < s.len() && #[trigger] s[i].0 == k
}

/// A position of an entry of `s` with the key `k` (the only one when keys are distinct).
pub open spec fn key_index(s: Seq<(u64, u8)>, k: u64) -> int {
    choose|i: int| 0 <= i < s.len() && #[trigger] s[i].0 == k
}

/// The value stored under `k` in `s`, if any.
pub open spec fn entry_value(s: Seq<(u64, u8)>, k: u64) -> Option<u8> {
    if has_key(s, k) {
        Some(s[key_index(s, k)].1)
    } else {
        None
    }
}

/// Inserting into an insertion-ordered map: an existing key keeps its place and takes the
/// new value; a new key goes last.
pub open spec fn entries_insert(s: Seq<(u64, u8)>, k: u64, v: u8) -> Seq<(u64, u8)> {
    if has_key(s, k) {
        s.update(key_index(s, k), (k, v))
    } else {
        s.push((k, v))
    }
}

/// `IndexMap::new`: an empty map.
#[verifier::external_body]
fn index_map_new() -> (r: IndexMap<u64, u8, RandomState>)
    ensures
        index_map_entries(r).len() == 0,
{
    IndexMap::new()
}

/// `IndexMap::insert`: an existing key keeps its position and gets the new value, whose
/// previous value is returned; a new key is appended and `None` is returned.
#[verifier::external_body]
fn index_map_insert(m: &mut IndexMap<u64, u8, RandomState>, key: u64, value: u8) -> (r: Option<u8>)
    ensures
        index_map_entries(*final(m)) == entries_insert(index_map_entries(*old(m)), key, value),
        r == entry_value(index_map_entries(*old(m)), key),
{
    m.insert(key, value)
}

/// `IndexMap::contains_key`: whether an entry has the key.
#[verifier::external_body]
fn index_map_contains_key(m: &IndexMap<u64, u8, RandomState>, key: u64) -> (r: bool)
    ensures
        r == has_key(index_map_entries(*m), key),
{
    m.contains_key(&key)
}

/// `IndexMap::len`: the number of entries.
#[verifier::external_body]
fn index_map_len(m: &IndexMap<u64, u8, RandomState>) -> (r: usize)
    ensures
        r == index_map_entries(*m).len(),
{
    m.len()
}

/// `IndexMap::get_index`: the entry at a position, if the position is in range.
#[verifier::external_body]
fn index_map_get_index(m: &IndexMap<u64, u8, RandomState>, index: usize) -> (r: Option<(u64, u8)>)
    ensures
        r == (if index < index_map_entries(*m).len() {
            Some(index_map_entries(*m)[index as int])
        } else {
            None
        }),
{
    match m.get_index(index) {
        Some((k, v)) => Some((*k, *v)),
        None => None,
    }
}

/// The changed entries of nodes that listen for layout events, collected in order (a node
/// listed twice keeps its first place and its last flags).
pub open spec fn listened_entries(changed: Seq<(WrappedIndex, GeometryChanged)>, listeners: Set<u64>) -> Seq<(u64, u8)>
    decreases changed.len(),
{
    if changed.len() == 0 {
        Seq::empty()
    } else {
        let prev = listened_entries(changed.drop_last(), listeners);
        let e = changed.last();
        if listeners.contains(e.0.0) {
            entries_insert(prev, e.0.0, e.1.bits)
        } else {
            prev
        }
    }
}

/// The parents of the nodes of `entries` that are not among `all` themselves, each once,
/// in the order they are first met, with no flags set.
pub open spec fn parent_entries(entries: Seq<(u64, u8)>, all: Seq<(u64, u8)>, tree: Tree) -> Seq<(u64, u8)>
    decreases entries.len(),
{
    if entries.len() == 0 {
        Seq::empty()
    } else {
        let prev = parent_entries(entries.drop_last(), all, tree);
        match tree.parent_of(entries.last().0) {
            Some(p) => if !has_key(all, p.0) {
                entries_insert(prev, p.0, 0)
            } else {
                prev
            },
            None => prev,
        }
    }
}

/// The layout event of a node with its rectangle and flags.
pub open spec fn event_of(rect: Rect, bits: u8, index: u64) -> LayoutEvent {
    LayoutEvent {
        layout: Layout { width: rect.width, height: rect.height, x: rect.posx, y: rect.posy, z: rect.z_index },
        flags: GeometryChanged { bits },
        target: index,
    }
}

/// The events of the entries whose node has a computed rectangle, in order.
pub open spec fn events_for(entries: Seq<(u64, u8)>, rects: Map<u64, Rect>) -> Seq<LayoutEvent>
    decreases entries.len(),
{
    if entries.len() == 0 {
        Seq::empty()
    } else {
        let prev = events_for(entries.drop_last(), rects);
        let e = entries.last();
        if rects.contains_key(e.0) {
            prev.push(event_of(rects[e.0], e.1, e.0))
        } else {
            prev
        }
    }
}

/// What the layout cache's list of changed nodes can be: each node with flags once, with
/// its flags, in some order.
pub open spec fn lists_changed(cache: LayoutCache, changed: Seq<(WrappedIndex, GeometryChanged)>) -> bool {
    &&& changed.len() == cache.geometry_changed@.dom().len()
    &&& forall|i: int| 0 <= i < changed.len() ==> {
        &&& cache.geometry_changed@.contains_key(#[trigger] changed[i].0.0)
        &&& cache.geometry_changed@[changed[i].0.0] == changed[i].1
    }
    &&& forall|n: u64| #[trigger] cache.geometry_changed@.contains_key(n) ==> exists|i: int| 0 <= i < changed.len() && #[trigger] changed[i].0 == WrappedIndex(n)
}

/// The events of one layout pass: first those of the changed nodes that listen for them,
/// then those of their parents that did not change themselves (with no flags set).
pub open spec fn planned_events(
    changed: Seq<(WrappedIndex, GeometryChanged)>,
    rects: Map<u64, Rect>,
    tree: Tree,
    listeners: Set<u64>,
) -> Seq<LayoutEvent> {
    let listened = listened_entries(changed, listeners);
    events_for(listened, rects) + events_for(parent_entries(listened, listened, tree), rects)
}

/// No two entries of `s` share a key.
pub open spec fn keys_distinct(s: Seq<(u64, u8)>) -> bool {
    forall|i: int, j: int| 0 <= i < s.len() && 0 <= j < s.len() && i != j ==> #[trigger] s[i].0 != #[trigger] s[j].0
}

proof fn lemma_insert_keys(s: Seq<(u64, u8)>, k: u64, v: u8)
    requires
        keys_distinct(s),
    ensures
        keys_distinct(entries_insert(s, k, v)),
        forall|q: u64| #[trigger] has_key(entries_insert(s, k, v), q) <==> (has_key(s, q) || q == k),
{
    let t = entries_insert(s, k, v);
    if has_key(s, k) {
        let i = key_index(s, k);
        assert(s[i].0 == k);
        assert forall|q: u64| #[trigger] has_key(t, q) <==> (has_key(s, q) || q == k) by {
            if has_key(s, q) {
                let j = choose|j: int| 0 <= j < s.len() && #[trigger] s[j].0 == q;
                assert(t[j].0 == q);
            }
            if has_key(t, q) {
                let j = choose|j: int| 0 <= j < t.len() && #[trigger] t[j].0 == q;
                assert(s[j].0 == q || j == i);
            }
            if q == k {
                assert(t[i].0 == q);
            }
        }
    } else {
        assert forall|i: int, j: int| 0 <= i < t.len() && 0 <= j < t.len() && i != j implies #[trigger] t[i].0 != #[trigger] t[j].0 by {
            if i == s.len() as int {
                assert(s[j].0 != k);
            } else if j == s.len() as int {
                assert(s[i].0 != k);
            }
        }
        assert forall|q: u64| #[trigger] has_key(t, q) <==> (has_key(s, q) || q == k) by {
            if has_key(s, q) {
                let j = choose|j: int| 0 <= j < s.len() && #[trigger] s[j].0 == q;
                assert(t[j].0 == q);
            }
            if has_key(t, q) {
                let j = choose|j: int| 0 <= j < t.len() && #[trigger] t[j].0 == q;
                if j < s.len() {
                    assert(s[j].0 == q);
                }
            }
            if q == k {
                assert(t[s.len() as int].0 == q);
            }
        }
    }
}

proof fn lemma_listened_distinct(changed: Seq<(WrappedIndex, GeometryChanged)>, listeners: Set<u64>)
    ensures
        keys_distinct(listened_entries(changed, listeners)),
    decreases changed.len(),
{
    if changed.len() > 0 {
        lemma_listened_distinct(changed.drop_last(), listeners);
        let e = changed.last();
        if listeners.contains(e.0.0) {
            lemma_insert_keys(listened_entries(changed.drop_last(), listeners), e.0.0, e.1.bits);
        }
    }
}

proof fn lemma_parents_distinct(entries: Seq<(u64, u8)>, all: Seq<(u64, u8)>, tree: Tree)
    ensures
        keys_distinct(parent_entries(entries, all, tree)),
        forall|q: u64| #[trigger] has_key(parent_entries(entries, all, tree), q) ==> !has_key(all, q),
    decreases entries.len(),
{
    if entries.len() > 0 {
        let prev = parent_entries(entries.drop_last(), all, tree);
        lemma_parents_distinct(entries.drop_last(), all, tree);
        match tree.parent_of(entries.last().0) {
            Some(p) => {
                if !has_key(all, p.0) {
                    lemma_insert_keys(prev, p.0, 0);
                }
            },
            None => {},
        }
    }
}

proof fn lemma_events_targets(entries: Seq<(u64, u8)>, rects: Map<u64, Rect>)
    requires
        keys_distinct(entries),
    ensures
        forall|i: int| 0 <= i < events_for(entries, rects).len() ==> has_key(entries, #[trigger] events_for(entries, rects)[i].target),
        forall|i: int, j: int| 0 <= i < events_for(entries, rects).len() && 0 <= j < events_for(entries, rects).len() && i != j
            ==> #[trigger] events_for(entries, rects)[i].target != #[trigger] events_for(entries, rects)[j].target,
    decreases entries.len(),
{
    if entries.len() > 0 {
        let init = entries.drop_last();
        assert(keys_distinct(init)) by {
            assert forall|i: int, j: int| 0 <= i < init.len() && 0 <= j < init.len() && i != j implies #[trigger] init[i].0 != #[trigger] init[j].0 by {
                assert(init[i] == entries[i] && init[j] == entries[j]);
            }
        }
        lemma_events_targets(init, rects);
        let prev = events_for(init, rects);
        let e = entries.last();
        assert(!has_key(init, e.0)) by {
            if has_key(init, e.0) {
                let j = choose|j: int| 0 <= j < init.len() && #[trigger] init[j].0 == e.0;
                assert(entries[j].0 == entries[entries.len() - 1].0);
            }
        }
        assert forall|q: u64| has_key(init, q) implies #[trigger] has_key(entries, q) by {
            let j = choose|j: int| 0 <= j < init.len() && #[trigger] init[j].0 == q;
            assert(entries[j].0 == q);
        }
        if rects.contains_key(e.0) {
            let cur = events_for(entries, rects);
            assert(cur == prev.push(event_of(rects[e.0], e.1, e.0)));
            assert(has_key(entries, e.0)) by {
                assert(entries[entries.len() - 1].0 == e.0);
            }
            assert forall|i: int| 0 <= i < cur.len() implies has_key(entries, #[trigger] cur[i].target) by {
                if i < prev.len() {
                    assert(cur[i] == prev[i]);
                    assert(has_key(init, prev[i].target));
                }
            }
            assert forall|i: int, j: int| 0 <= i < cur.len() && 0 <= j < cur.len() && i != j
                implies #[trigger] cur[i].target != #[trigger] cur[j].target by {
                if i < prev.len() && j < prev.len() {
                    assert(cur[i] == prev[i] && cur[j] == prev[j]);
                } else if i < prev.len() {
                    assert(cur[i] == prev[i]);
                    assert(has_key(init, prev[i].target));
                } else if j < prev.len() {
                    assert(cur[j] == prev[j]);
                    assert(has_key(init, prev[j].target));
                }
            }
        } else {
            assert forall|i: int| 0 <= i < prev.len() implies has_key(entries, #[trigger] prev[i].target) by {
                assert(has_key(init, prev[i].target));
            }
        }
    }
}

/// No widget receives two layout events in one pass: the listening nodes are collected
/// without duplicates, and a parent is added once and only when it did not change itself.
pub proof fn lemma_layout_events_distinct(
    changed: Seq<(WrappedIndex, GeometryChanged)>,
    rects: Map<u64, Rect>,
    tree: Tree,
    listeners: Set<u64>,
)
    ensures
        forall|i: int, j: int|
            0 <= i < planned_events(changed, rects, tree, listeners).len() && 0 <= j < planned_events(changed, rects, tree, listeners).len()
                && i != j ==> #[trigger] planned_events(changed, rects, tree, listeners)[i].target
                != #[trigger] planned_events(changed, rects, tree, listeners)[j].target,
{
    let listened = listened_entries(changed, listeners);
    let parents = parent_entries(listened, listened, tree);
    lemma_listened_distinct(changed, listeners);
    lemma_parents_distinct(listened, listened, tree);
    lemma_events_targets(listened, rects);
    lemma_events_targets(parents, rects);
    let a = events_for(listened, rects);
    let b = events_for(parents, rects);
    let all = planned_events(changed, rects, tree, listeners);
    assert(all == a + b);
    assert forall|i: int, j: int| 0 <= i < all.len() && 0 <= j < all.len() && i != j
        implies #[trigger] all[i].target != #[trigger] all[j].target by {
        if i < a.len() && j < a.len() {
            assert(all[i] == a[i] && all[j] == a[j]);
        } else if i >= a.len() && j >= a.len() {
            assert(all[i] == b[i - a.len()] && all[j] == b[j - a.len()]);
        } else if i < a.len() {
            assert(all[i] == a[i] && all[j] == b[j - a.len()]);
            assert(has_key(listened, a[i].target));
            assert(has_key(parents, b[j - a.len()].target));
        } else {
            assert(all[j] == a[j] && all[i] == b[i - a.len()]);
            assert(has_key(listened, a[j].target));
            assert(has_key(parents, b[i - a.len()].target));
        }
    }
}

/// Decides which layout events a layout pass sends.
pub struct LayoutEventDispatcher;

impl LayoutEventDispatcher {
    /// The layout events for the changed nodes listed in `changed`, in the order they are
    /// delivered: each listening node in `changed` whose rectangle is known, with its flags;
    /// then each parent of those nodes that is not among them, once, with no flags set.
    pub fn plan(
        changed: &Vec<(WrappedIndex, GeometryChanged)>,
        layout_cache: &LayoutCache,
        tree: &Tree,
        listeners: &HashSet<u64>,
    ) -> (r: Vec<LayoutEvent>)
        ensures
            r@ == planned_events(changed@, layout_cache.rect@, *tree, listeners@),
    {
        let mut listened = index_map_new();
        let mut i: usize = 0;
        while i < changed.len()
            invariant
                i <= changed@.len(),
                index_map_entries(listened) == listened_entries(changed@.take(i as int), listeners@),
            decreases changed@.len() - i,
        {
            let (index, flags) = changed[i];
            assert(changed@.take(i + 1).drop_last() =~= changed@.take(i as int));
            if listeners.contains(&index.0) {
                index_map_insert(&mut listened, index.0, flags.bits);
            }
            i += 1;
        }
        assert(changed@.take(changed@.len() as int) =~= changed@);
        let ghost all = index_map_entries(listened);

        let mut out: Vec<LayoutEvent> = Vec::new();
        let mut parents = index_map_new();
        let n = index_map_len(&listened);
        let mut j: usize = 0;
        while j < n
            invariant
                j <= n,
                n == all.len(),
                index_map_entries(listened) == all,
                all == listened_entries(changed@, listeners@),
                index_map_entries(parents) == parent_entries(all.take(j as int), all, *tree),
                out@ == events_for(all.take(j as int), layout_cache.rect@),
            decreases n - j,
        {
            let (node, bits) = index_map_get_index(&listened, j).unwrap();
            assert(all.take(j + 1).drop_last() =~= all.take(j as int));
            match tree.get_parent(WrappedIndex(node)) {
                Some(p) => {
                    if !index_map_contains_key(&listened, p.0) {
                        index_map_insert(&mut parents, p.0, 0);
                    }
                },
                None => {},
            }
            match layout_cache.rect.get(&node) {
                Some(rect) => {
                    out.push(LayoutEvent::new(*rect, GeometryChanged { bits }, node));
                },
                None => {},
            }
            j += 1;
        }
        assert(all.take(n as int) =~= all);
        let ghost first = out@;
        let ghost pall = index_map_entries(parents);
        let m = index_map_len(&parents);
        let mut k: usize = 0;
        while k < m
            invariant
                k <= m,
                m == pall.len(),
                index_map_entries(parents) == pall,
                pall == parent_entries(all, all, *tree),
                first == events_for(all, layout_cache.rect@),
                out@ == first + events_for(pall.take(k as int), layout_cache.rect@),
            decreases m - k,
        {
            let (node, bits) = index_map_get_index(&parents, k).unwrap();
            assert(pall.take(k + 1).drop_last() =~= pall.take(k as int));
            match layout_cache.rect.get(&node) {
                Some(rect) => {
                    out.push(LayoutEvent::new(*rect, GeometryChanged { bits }, node));
                    assert(out@ =~= first + events_for(pall.take(k + 1), layout_cache.rect@));
                },
                None => {},
            }
            k += 1;
        }
        assert(pall.take(m as int) =~= pall);
        out
    }

    /// The layout events of the last layout pass, for the nodes in `listeners`: those of
    /// [`plan`](Self::plan) for the cache's changed nodes in the order the cache lists them.
    pub fn dispatch(layout_cache: &LayoutCache, tree: &Tree, listeners: &HashSet<u64>) -> (r: Vec<LayoutEvent>)
        ensures
            exists|changed: Seq<(WrappedIndex, GeometryChanged)>|
                lists_changed(*layout_cache, changed) && r@ == planned_events(changed, layout_cache.rect@, *tree, listeners@),
    {
        let changed = layout_cache.iter_changed();
        let r = Self::plan(&changed, layout_cache, tree, listeners);
        assert(lists_changed(*layout_cache, changed@));
        r
    }
}

} // verus!
