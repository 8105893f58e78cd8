use vstd::prelude::*;

use crate::context::KayakRootContext;
use crate::node::WrappedIndex;
use crate::tree::{shape_remove_all, Tree};

verus! {

broadcast use vstd::std_specs::hash::group_hash_axioms;

/// What the diff of a widget's new children against the widget tree found for one child,
/// with what the caller knows of it outside the library.
pub struct ChildChange {
    /// The parent the diff places the child under.
    pub parent: u64,
    /// The child's entity.
    pub child: u64,
    /// The child was inserted.
    pub inserted: bool,
    /// The child was deleted.
    pub deleted: bool,
    /// The child's widget name differs from the name of its previous entity.
    pub renamed: bool,
    /// A widget under one of the child's siblings still holds the child among the children
    /// passed to it, so the child lives on.
    pub still_held: bool,
    /// The descendants of the child in the widget tree, below the child.
    pub descendants: Vec<u64>,
}

/// A renamed child that has a parent in `tree` and is not held elsewhere loses its
/// descendants.
pub open spec fn renamed_removal(tree: Tree, c: ChildChange) -> bool {
    c.renamed && tree.parent_of(c.child) is Some && !c.still_held
}

/// A deleted (and not inserted) child that is not held elsewhere is removed.
pub open spec fn deleted_removal(c: ChildChange) -> bool {
    !c.inserted && c.deleted && !c.still_held
}

/// The entities that one change despawns, each with the parent it is despawned from: the
/// descendants of a renamed child (from the child's parent in the diff), then a deleted child
/// itself (from its parent in `tree`, when it has one).
pub open spec fn change_despawns(tree: Tree, c: ChildChange) -> Seq<(u64, u64)> {
    (if renamed_removal(tree, c) {
        c.descendants@.map_values(|d: u64| (c.parent, d))
    } else {
        Seq::empty()
    }) + (if deleted_removal(c) {
        match tree.parent_of(c.child) {
            Some(p) => seq![(p.0, c.child)],
            None => Seq::empty(),
        }
    } else {
        Seq::empty()
    })
}

/// The entities that one change prunes from the tree of spawned widgets: a renamed child
/// once for each descendant despawned, a deleted child once.
pub open spec fn change_prunes(tree: Tree, c: ChildChange) -> Seq<u64> {
    (if renamed_removal(tree, c) {
        Seq::new(c.descendants@.len(), |i: int| c.child)
    } else {
        Seq::empty()
    }) + (if deleted_removal(c) {
        seq![c.child]
    } else {
        Seq::empty()
    })
}

/// The despawns of all changes, in order.
pub open spec fn despawns_of(tree: Tree, cs: Seq<ChildChange>) -> Seq<(u64, u64)>
    decreases cs.len(),
{
    if cs.len() == 0 {
        Seq::empty()
    } else {
        despawns_of(tree, cs.drop_last()) + change_despawns(tree, cs.last())
    }
}

/// The prunes of all changes, in order.
pub open spec fn prunes_of(tree: Tree, cs: Seq<ChildChange>) -> Seq<u64>
    decreases cs.len(),
{
    if cs.len() == 0 {
        Seq::empty()
    } else {
        prunes_of(tree, cs.drop_last()) + change_prunes(tree, cs.last())
    }
}

/// The inserted children, in order.
pub open spec fn mounted_of(cs: Seq<ChildChange>) -> Seq<u64>
    decreases cs.len(),
{
    if cs.len() == 0 {
        Seq::empty()
    } else if cs.last().inserted {
        mounted_of(cs.drop_last()).push(cs.last().child)
    } else {
        mounted_of(cs.drop_last())
    }
}

/// Visibility once each of `ns` is registered (and so visible).
pub open spec fn visible_after(v: Map<u64, bool>, ns: Seq<u64>) -> Map<u64, bool>
    decreases ns.len(),
{
    if ns.len() == 0 {
        v
    } else {
        visible_after(v, ns.drop_last()).insert(ns.last(), true)
    }
}

/// The keyed bookkeeping: the entities under each parent's keys, the parent of each keyed
/// entity, and the key of each keyed entity.
pub open spec fn keyed_view(c: KayakRootContext) -> (Map<u64, Map<Seq<char>, u64>>, Map<u64, u64>, Map<u64, Seq<char>>) {
    (
        Map::new(|p: u64| c.unique_ids@.contains_key(p), |p: u64| c.unique_ids@[p]@),
        c.unique_ids_parents@,
        Map::new(|e: u64| c.unique_id_keys@.contains_key(e), |e: u64| c.unique_id_keys@[e]@),
    )
}

/// The keyed bookkeeping once the despawned entity `e` gives up its key: when its parent
/// still records `e` under `e`'s key, that key and `e`'s entries go.
pub open spec fn key_release(
    k: (Map<u64, Map<Seq<char>, u64>>, Map<u64, u64>, Map<u64, Seq<char>>),
    e: u64,
) -> (Map<u64, Map<Seq<char>, u64>>, Map<u64, u64>, Map<u64, Seq<char>>) {
    let (kv, par, keys) = k;
    if par.contains_key(e) && keys.contains_key(e) && kv.contains_key(par[e]) && kv[par[e]].contains_key(keys[e])
        && kv[par[e]][keys[e]] == e {
        (kv.insert(par[e], kv[par[e]].remove(keys[e])), par.remove(e), keys.remove(e))
    } else {
        k
    }
}

/// The keyed bookkeeping once each of `es` gives up its key in turn.
pub open spec fn keys_released(
    k: (Map<u64, Map<Seq<char>, u64>>, Map<u64, u64>, Map<u64, Seq<char>>),
    es: Seq<u64>,
) -> (Map<u64, Map<Seq<char>, u64>>, Map<u64, u64>, Map<u64, Seq<char>>)
    decreases es.len(),
{
    if es.len() == 0 {
        k
    } else {
        key_release(keys_released(k, es.drop_last()), es.last())
    }
}

/// The widget states (state entity of each widget, widget of each state entity) once the
/// widget `e` gives up its state entity.
pub open spec fn state_release(st: (Map<u64, u64>, Map<u64, u64>), e: u64) -> (Map<u64, u64>, Map<u64, u64>) {
    (st.0.remove(e), if st.0.contains_key(e) {
        st.1.remove(st.0[e])
    } else {
        st.1
    })
}

/// The widget states once each of `es` gives up its state entity in turn.
pub open spec fn states_released(st: (Map<u64, u64>, Map<u64, u64>), es: Seq<u64>) -> (Map<u64, u64>, Map<u64, u64>)
    decreases es.len(),
{
    if es.len() == 0 {
        st
    } else {
        state_release(states_released(st, es.drop_last()), es.last())
    }
}

/// The despawned entities of a despawn list.
pub open spec fn despawned(d: Seq<(u64, u64)>) -> Seq<u64> {
    d.map_values(|x: (u64, u64)| x.1)
}

/// The `i`-th despawn of `d` with the state entity its entity gives up, given the widget
/// states `st0` before any of `d` was despawned.
pub open spec fn despawn_entry(st0: (Map<u64, u64>, Map<u64, u64>), d: Seq<(u64, u64)>, i: int) -> (u64, u64, Option<u64>) {
    let st = states_released(st0, despawned(d).take(i));
    (d[i].0, d[i].1, if st.0.contains_key(d[i].1) {
        Some(st.0[d[i].1])
    } else {
        None
    })
}

impl KayakRootContext {
    /// The removals that follow the diff of a widget's children: renamed children lose their
    /// descendants, deleted children go, unless a sibling still holds them. Each despawned
    /// entity gives up its key and its state entity, pruned children leave the tree of
    /// spawned widgets, and inserted children are registered with the layout. Returns the
    /// despawned entities in order, each with the parent it leaves and the state entity it
    /// gave up, if any, for the caller to despawn.
    pub fn plan_removals(&mut self, changes: &Vec<ChildChange>) -> (r: Vec<(u64, u64, Option<u64>)>)
        ensures
            ({
                let d = despawns_of(old(self).tree, changes@);
                let es = despawned(d);
                let st0 = (old(self).widget_state.states(), old(self).widget_state.widgets());
                &&& r@.len() == d.len()
                &&& forall|i: int| 0 <= i < r@.len() ==> #[trigger] r@[i] == despawn_entry(st0, d, i)
                &&& (final(self).widget_state.states(), final(self).widget_state.widgets()) == states_released(st0, es)
                &&& keyed_view(*final(self)) == keys_released(keyed_view(*old(self)), es)
            }),
            final(self).order_tree.shape() == shape_remove_all(
                old(self).order_tree.shape(),
                prunes_of(old(self).tree, changes@),
            ),
            final(self).layout_cache.visible@ == visible_after(old(self).layout_cache.visible@, mounted_of(changes@)),
            final(self).layout_cache.rect@ == old(self).layout_cache.rect@,
            final(self).layout_cache.geometry_changed@ == old(self).layout_cache.geometry_changed@,
            final(self).tree == old(self).tree,
            final(self).focus_tree == old(self).focus_tree,
            final(self).index == old(self).index,
    {
        let ghost tree0 = self.tree;
        // Collect what the changes despawn, prune and mount.
        let mut despawns: Vec<(u64, u64)> = Vec::new();
        let mut prunes: Vec<u64> = Vec::new();
        let mut mounted: Vec<u64> = Vec::new();
        let mut i: usize = 0;
        while i < changes.len()
            invariant
                i <= changes@.len(),
                self.tree == tree0,
                despawns@ == despawns_of(tree0, changes@.take(i as int)),
                prunes@ == prunes_of(tree0, changes@.take(i as int)),
                mounted@ == mounted_of(changes@.take(i as int)),
            decreases changes@.len() - i,
        {
            let c = &changes[i];
            proof {
                assert(changes@.take(i + 1).drop_last() =~= changes@.take(i as int));
                assert(changes@.take(i + 1).last() == *c);
            }
            let ghost d0 = despawns@;
            let ghost p0 = prunes@;
            let has_parent = self.tree.get_parent(WrappedIndex(c.child)).is_some();
            if c.renamed && has_parent && !c.still_held {
                let mut j: usize = 0;
                while j < c.descendants.len()
                    invariant
                        j <= c.descendants@.len(),
                        despawns@ == d0 + c.descendants@.take(j as int).map_values(|x: u64| (c.parent, x)),
                        prunes@ == p0 + Seq::new(j as nat, |k: int| c.child),
                    decreases c.descendants@.len() - j,
                {
                    despawns.push((c.parent, c.descendants[j]));
                    prunes.push(c.child);
                    proof {
                        assert(c.descendants@.take(j + 1).map_values(|x: u64| (c.parent, x)) =~= c.descendants@.take(
                            j as int,
                        ).map_values(|x: u64| (c.parent, x)).push((c.parent, c.descendants@[j as int])));
                        assert(despawns@ =~= d0 + c.descendants@.take(j + 1).map_values(|x: u64| (c.parent, x)));
                        assert(prunes@ =~= p0 + Seq::new((j + 1) as nat, |k: int| c.child));
                    }
                    j += 1;
                }
                assert(c.descendants@.take(c.descendants@.len() as int) =~= c.descendants@);
            }
            let ghost d1 = despawns@;
            let ghost p1 = prunes@;
            if !c.inserted && c.deleted && !c.still_held {
                if let Some(p) = self.tree.get_parent(WrappedIndex(c.child)) {
                    despawns.push((p.0, c.child));
                }
                prunes.push(c.child);
            }
            if c.inserted {
                mounted.push(c.child);
            }
            proof {
                let cd = change_despawns(tree0, *c);
                let cp = change_prunes(tree0, *c);
                if renamed_removal(tree0, *c) {
                    assert(d1 =~= d0 + c.descendants@.map_values(|x: u64| (c.parent, x)));
                } else {
                    assert(d1 =~= d0);
                    assert(p1 =~= p0);
                }
                assert(despawns@ =~= d0 + cd);
                assert(prunes@ =~= p0 + cp);
            }
            i += 1;
        }
        proof {
            assert(changes@.take(changes@.len() as int) =~= changes@);
        }

        // Prune the tree of spawned widgets.
        let ghost shape0 = self.order_tree.shape();
        let mut k: usize = 0;
        while k < prunes.len()
            invariant
                k <= prunes@.len(),
                self.order_tree.shape() == shape_remove_all(shape0, prunes@.take(k as int)),
                self.tree == tree0,
                self.layout_cache == old(self).layout_cache,
                self.widget_state == old(self).widget_state,
                keyed_view(*self) == keyed_view(*old(self)),
                self.focus_tree == old(self).focus_tree,
                self.index == old(self).index,
            decreases prunes@.len() - k,
        {
            proof {
                assert(prunes@.take(k + 1).drop_last() =~= prunes@.take(k as int));
            }
            self.order_tree.remove(WrappedIndex(prunes[k]));
            k += 1;
        }
        proof {
            assert(prunes@.take(prunes@.len() as int) =~= prunes@);
        }

        // Register the inserted children with the layout.
        let ghost vis0 = self.layout_cache.visible@;
        let mut m: usize = 0;
        while m < mounted.len()
            invariant
                m <= mounted@.len(),
                self.layout_cache.visible@ == visible_after(vis0, mounted@.take(m as int)),
                self.layout_cache.rect@ == old(self).layout_cache.rect@,
                self.layout_cache.geometry_changed@ == old(self).layout_cache.geometry_changed@,
                self.order_tree.shape() == shape_remove_all(shape0, prunes@),
                self.tree == tree0,
                self.widget_state == old(self).widget_state,
                keyed_view(*self) == keyed_view(*old(self)),
                self.focus_tree == old(self).focus_tree,
                self.index == old(self).index,
            decreases mounted@.len() - m,
        {
            proof {
                assert(mounted@.take(m + 1).drop_last() =~= mounted@.take(m as int));
            }
            self.layout_cache.add(WrappedIndex(mounted[m]));
            m += 1;
        }
        proof {
            assert(mounted@.take(mounted@.len() as int) =~= mounted@);
        }

        // Release the keys and the state entities of the despawned entities.
        let ghost es = despawned(despawns@);
        let ghost st0 = (self.widget_state.states(), self.widget_state.widgets());
        let ghost k0 = keyed_view(*self);
        let mut out: Vec<(u64, u64, Option<u64>)> = Vec::new();
        let mut q: usize = 0;
        while q < despawns.len()
            invariant
                q <= despawns@.len(),
                es == despawned(despawns@),
                despawns@ == despawns_of(old(self).tree, changes@),
                st0 == (old(self).widget_state.states(), old(self).widget_state.widgets()),
                k0 == keyed_view(*old(self)),
                out@.len() == q,
                (self.widget_state.states(), self.widget_state.widgets()) == states_released(st0, es.take(q as int)),
                keyed_view(*self) == keys_released(k0, es.take(q as int)),
                forall|x: int| 0 <= x < q ==> #[trigger] out@[x] == despawn_entry(st0, despawns@, x),
                self.tree == tree0,
                self.order_tree.shape() == shape_remove_all(shape0, prunes@),
                self.layout_cache.visible@ == visible_after(vis0, mounted@),
                self.layout_cache.rect@ == old(self).layout_cache.rect@,
                self.layout_cache.geometry_changed@ == old(self).layout_cache.geometry_changed@,
                self.focus_tree == old(self).focus_tree,
                self.index == old(self).index,
            decreases despawns@.len() - q,
        {
            let (parent, entity) = despawns[q];
            proof {
                assert(es.take(q + 1).drop_last() =~= es.take(q as int));
                assert(es.take(q + 1).last() == entity);
            }
            let ghost prev_out = out@;
            let ghost st_q = states_released(st0, es.take(q as int));
            self.release_key(entity);
            let state = self.widget_state.remove(entity);
            out.push((parent, entity, state));
            proof {
                assert(state == (if st_q.0.contains_key(entity) {
                    Some(st_q.0[entity])
                } else {
                    None
                }));
                assert(out@[q as int] == (parent, entity, state));
                assert forall|x: int| 0 <= x < q + 1 implies #[trigger] out@[x] == despawn_entry(st0, despawns@, x) by {
                    if x < q {
                        assert(out@[x] == prev_out[x]);
                    } else {
                        assert(despawns@[x] == (parent, entity));
                        assert(despawned(despawns@).take(x) == es.take(q as int));
                    }
                }
            }
            q += 1;
        }
        proof {
            assert(es.take(despawns@.len() as int) =~= es);
        }
        out
    }

    /// Gives up the key of the despawned entity `e`, when its parent still records `e`
    /// under it.
    fn release_key(&mut self, e: u64)
        ensures
            keyed_view(*final(self)) == key_release(keyed_view(*old(self)), e),
            final(self).widget_state == old(self).widget_state,
            final(self).tree == old(self).tree,
            final(self).order_tree == old(self).order_tree,
            final(self).layout_cache == old(self).layout_cache,
            final(self).focus_tree == old(self).focus_tree,
            final(self).index == old(self).index,
    {
        let ghost k0 = keyed_view(*self);
        let parent = match self.unique_ids_parents.get(&e) {
            Some(p) => *p,
            None => {
                return;
            },
        };
        let key = match self.unique_id_keys.get(&e) {
            Some(k) => k.clone(),
            None => {
                return;
            },
        };
        let found = match self.unique_ids.get(&parent) {
            Some(m) => match m.get(key.as_str()) {
                Some(v) => *v == e,
                None => false,
            },
            None => false,
        };
        if !found {
            return;
        }
        let mut key_map = self.unique_ids.remove(&parent).unwrap();
        key_map.remove(key.as_str());
        self.unique_ids.insert(parent, key_map);
        self.unique_ids_parents.remove(&e);
        self.unique_id_keys.remove(&e);
        proof {
            let k1 = keyed_view(*self);
            let k2 = key_release(k0, e);
            assert(k1.0 =~= k2.0);
            assert(k1.1 =~= k2.1);
            assert(k1.2 =~= k2.2);
        }
    }
}

} // verus!
