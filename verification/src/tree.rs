use std::collections::HashMap;
use vstd::prelude::*;

use crate::node::WrappedIndex;

verus! {

broadcast use vstd::std_specs::hash::group_hash_axioms;

/// `i` is the first position of `x` in `s`.
pub open spec fn is_first_pos(s: Seq<WrappedIndex>, x: WrappedIndex, i: int) -> bool {
    &&& 0 <= i < s.len()
    &&& s[i] == x
    &&& forall|j: int| 0 <= j < i ==> s[j] != x
}

/// The first position of `x` in `s` (meaningful when `s` contains `x`).
pub open spec fn first_pos(s: Seq<WrappedIndex>, x: WrappedIndex) -> int {
    choose|i: int| is_first_pos(s, x, i)
}

/// The first position of `x` is the position that has the first-position property.
pub proof fn lemma_first_pos(s: Seq<WrappedIndex>, x: WrappedIndex, i: int)
    requires
        is_first_pos(s, x, i),
    ensures
        first_pos(s, x) == i,
{
    let k = first_pos(s, x);
    assert(is_first_pos(s, x, k));
    if k < i {
        assert(s[k] != x);
    } else if i < k {
        assert(s[i] != x);
    }
}

/// In a sequence without duplicates, every position of `x` is its first position.
pub proof fn lemma_pos_no_dup(s: Seq<WrappedIndex>, x: WrappedIndex, i: int)
    requires
        s.no_duplicates(),
        0 <= i < s.len(),
        s[i] == x,
    ensures
        first_pos(s, x) == i,
        s.contains(x),
{
    assert forall|j: int| 0 <= j < i implies s[j] != x by {
        assert(s[j] != s[i]);
    }
    lemma_first_pos(s, x, i);
}

/// The first position of `x` in `v`, if any.
fn position_in(v: &Vec<WrappedIndex>, x: WrappedIndex) -> (r: Option<usize>)
    ensures
        match r {
            Some(i) => is_first_pos(v@, x, i as int),
            None => !v@.contains(x),
        },
{
    let mut i: usize = 0;
    while i < v.len()
        invariant
            i <= v.len(),
            forall|j: int| 0 <= j < i ==> v@[j] != x,
        decreases v.len() - i,
    {
        if v[i] == x {
            return Some(i);
        }
        i += 1;
    }
    None
}

/// A tree of widget indices.
///
/// `children` lists the children of each node in order, `parents` maps each non-root node
/// to its parent, and `root_node` is the root of the tree, if any.
pub struct Tree {
    pub children: HashMap<u64, Vec<WrappedIndex>>,
    pub parents: HashMap<u64, WrappedIndex>,
    pub root_node: Option<WrappedIndex>,
    /// The distance of each node from the root.
    pub depth: Ghost<Map<u64, nat>>,
    /// A strict upper bound on the depth of every node.
    pub height_bound: Ghost<nat>,
}

/// `s` without the entries of `n`.
pub open spec fn without(s: Seq<WrappedIndex>, n: u64) -> Seq<WrappedIndex>
    decreases s.len(),
{
    if s.len() == 0 {
        s
    } else if s.last().0 == n {
        without(s.drop_last(), n)
    } else {
        without(s.drop_last(), n).push(s.last())
    }
}

/// The tree shape `s` once `n` is removed (see [`Tree::remove`]).
pub open spec fn shape_remove(
    s: (Map<u64, WrappedIndex>, Map<u64, Seq<WrappedIndex>>, Option<WrappedIndex>),
    n: u64,
) -> (Map<u64, WrappedIndex>, Map<u64, Seq<WrappedIndex>>, Option<WrappedIndex>) {
    let (par, kids, root) = s;
    if par.contains_key(n) {
        let p = par[n].0;
        let ck = if kids.contains_key(n) {
            kids[n]
        } else {
            Seq::empty()
        };
        let par2 = par.remove(n).remove_keys(Set::new(|c: u64| ck.contains(WrappedIndex(c))));
        let kids1 = kids.remove(n);
        let kids2 = if kids1.contains_key(p) {
            kids1.insert(p, without(kids1[p], n))
        } else {
            kids1
        };
        (par2, kids2, root)
    } else if root == Some(WrappedIndex(n)) {
        (Map::empty(), Map::empty(), None)
    } else {
        s
    }
}

/// A tree shape once each of `ns` is removed in turn.
pub open spec fn shape_remove_all(
    s: (Map<u64, WrappedIndex>, Map<u64, Seq<WrappedIndex>>, Option<WrappedIndex>),
    ns: Seq<u64>,
) -> (Map<u64, WrappedIndex>, Map<u64, Seq<WrappedIndex>>, Option<WrappedIndex>)
    decreases ns.len(),
{
    if ns.len() == 0 {
        s
    } else {
        shape_remove(shape_remove_all(s, ns.drop_last()), ns.last())
    }
}

/// `s` without the entries of `n`.
fn without_exec(s: &Vec<WrappedIndex>, n: u64) -> (r: Vec<WrappedIndex>)
    ensures
        r@ == without(s@, n),
{
    let mut out: Vec<WrappedIndex> = Vec::new();
    let mut i: usize = 0;
    while i < s.len()
        invariant
            i <= s@.len(),
            out@ == without(s@.take(i as int), n),
        decreases s@.len() - i,
    {
        assert(s@.take(i + 1).drop_last() =~= s@.take(i as int));
        if s[i].0 != n {
            out.push(s[i]);
        }
        i += 1;
    }
    assert(s@.take(s@.len() as int) =~= s@);
    out
}

impl Default for Tree {
    /// An empty tree.
    fn default() -> (t: Tree)
        ensures
            t.wf(),
            t.root_node is None,
            t.parents@ == Map::<u64, WrappedIndex>::empty(),
            t.children@ == Map::<u64, Vec<WrappedIndex>>::empty(),
    {
        Tree::new()
    }
}

impl Tree {
    /// Whether `n` is a node of the tree: the root, or a node with a parent.
    pub open spec fn is_node(self, n: u64) -> bool {
        self.root_node == Some(WrappedIndex(n)) || self.parents@.contains_key(n)
    }

    /// The parent of `n`, if it has one.
    pub open spec fn parent_of(self, n: u64) -> Option<WrappedIndex> {
        if self.parents@.contains_key(n) {
            Some(self.parents@[n])
        } else {
            None
        }
    }

    /// The ordered children of `n` (empty when `n` has no entry).
    pub open spec fn kids(self, n: u64) -> Seq<WrappedIndex> {
        if self.children@.contains_key(n) {
            self.children@[n]@
        } else {
            Seq::empty()
        }
    }

    /// The first child of `n`, if any.
    pub open spec fn first_child(self, n: u64) -> Option<WrappedIndex> {
        if self.kids(n).len() > 0 {
            Some(self.kids(n)[0])
        } else {
            None
        }
    }

    /// The last child of `n`, if any.
    pub open spec fn last_child(self, n: u64) -> Option<WrappedIndex> {
        if self.kids(n).len() > 0 {
            Some(self.kids(n).last())
        } else {
            None
        }
    }

    /// The sibling that follows `n` in its parent's child list, if any.
    pub open spec fn next_sibling(self, n: u64) -> Option<WrappedIndex> {
        match self.parent_of(n) {
            Some(p) => {
                let s = self.kids(p.0);
                let i = first_pos(s, WrappedIndex(n));
                if s.contains(WrappedIndex(n)) && i + 1 < s.len() {
                    Some(s[i + 1])
                } else {
                    None
                }
            },
            None => None,
        }
    }

    /// The sibling that precedes `n` in its parent's child list, if any.
    pub open spec fn prev_sibling(self, n: u64) -> Option<WrappedIndex> {
        match self.parent_of(n) {
            Some(p) => {
                let s = self.kids(p.0);
                let i = first_pos(s, WrappedIndex(n));
                if s.contains(WrappedIndex(n)) && i > 0 {
                    Some(s[i - 1])
                } else {
                    None
                }
            },
            None => None,
        }
    }

    /// The next sibling of `n` or, failing that, of its nearest ancestor that has one.
    pub open spec fn up_next(self, n: u64) -> Option<WrappedIndex>
        decreases self.depth@[n],
        when self.wf()
    {
        match self.next_sibling(n) {
            Some(s) => Some(s),
            None => match self.parent_of(n) {
                Some(p) => {
                    proof {
                        assert(self.parent_link_ok(n));
                    }
                    self.up_next(p.0)
                },
                None => None,
            },
        }
    }

    /// The last node of the subtree of `n` in pre-order: follow last children down.
    pub open spec fn last_desc(self, n: u64) -> WrappedIndex
        decreases self.height_bound@ - self.depth@[n],
        when self.wf()
    {
        match self.last_child(n) {
            Some(c) => {
                proof {
                    self.lemma_last_child_deeper(n);
                }
                self.last_desc(c.0)
            },
            None => WrappedIndex(n),
        }
    }

    /// The pre-order successor of `cur`, wrapping around to the root; the root when `cur` is `None`.
    pub open spec fn preorder_next(self, cur: Option<WrappedIndex>) -> Option<WrappedIndex> {
        match cur {
            Some(x) => match self.first_child(x.0) {
                Some(c) => Some(c),
                None => match self.up_next(x.0) {
                    Some(u) => Some(u),
                    None => self.root_node,
                },
            },
            None => self.root_node,
        }
    }

    /// The pre-order predecessor of `cur`, wrapping around from the root to the last node;
    /// the root when `cur` is `None`.
    pub open spec fn preorder_prev(self, cur: Option<WrappedIndex>) -> Option<WrappedIndex> {
        match cur {
            Some(x) => match self.prev_sibling(x.0) {
                Some(s) => Some(self.last_desc(s.0)),
                None => match self.parent_of(x.0) {
                    Some(p) => Some(p),
                    None => Some(self.last_desc(x.0)),
                },
            },
            None => self.root_node,
        }
    }

    /// The distance of node `n` from the root.
    pub closed spec fn depth_of(self, n: u64) -> nat {
        self.depth@[n]
    }

    /// A strict upper bound on the depth of every node.
    pub closed spec fn bound(self) -> nat {
        self.height_bound@
    }

    /// The facts that hold of the parent link of a node `n` that has a parent.
    pub closed spec fn parent_link_ok(self, n: u64) -> bool {
        let p = self.parents@[n].0;
        &&& self.is_node(p)
        &&& self.depth@.contains_key(n)
        &&& self.depth@.contains_key(p)
        &&& self.depth@[n] == self.depth@[p] + 1
        &&& self.kids(p).contains(WrappedIndex(n))
    }

    /// The facts that hold of the child list of every key `k` of `children`.
    pub closed spec fn child_list_ok(self, k: u64) -> bool {
        &&& self.children@[k]@.no_duplicates()
        &&& forall|i: int|
            0 <= i < self.children@[k]@.len() ==> {
                let c = #[trigger] self.children@[k]@[i];
                &&& self.parents@.contains_key(c.0)
                &&& self.parents@[c.0].0 == k
            }
    }

    /// Well-formedness: the parent links and child lists agree, every child list is free of
    /// duplicates, and every node lies at a finite depth below the root (so the tree is acyclic).
    pub closed spec fn wf(self) -> bool {
        &&& self.root_node is None ==> {
            &&& self.parents@.dom() =~= Set::empty()
            &&& forall|k: u64| #[trigger] self.children@.contains_key(k) ==> self.children@[k]@.len() == 0
        }
        &&& self.root_node matches Some(r) ==> {
            &&& !self.parents@.contains_key(r.0)
            &&& self.depth@.contains_key(r.0)
            &&& self.depth@[r.0] == 0
        }
        &&& forall|n: u64| #[trigger] self.parents@.contains_key(n) ==> self.parent_link_ok(n)
        &&& forall|k: u64| #[trigger] self.children@.contains_key(k) ==> self.child_list_ok(k)
        &&& forall|n: u64| #[trigger] self.depth@.contains_key(n) ==> self.depth@[n] < self.height_bound@
    }

    /// An empty tree.
    pub fn new() -> (t: Tree)
        ensures
            t.wf(),
            t.root_node is None,
            t.parents@ == Map::<u64, WrappedIndex>::empty(),
            t.children@ == Map::<u64, Vec<WrappedIndex>>::empty(),
    {
        Tree {
            children: HashMap::new(),
            parents: HashMap::new(),
            root_node: None,
            depth: Ghost(Map::empty()),
            height_bound: Ghost(0),
        }
    }

    /// `new` is `old` with `index` added as the last child of `parent`, or as the new root
    /// when there is no parent.
    pub open spec fn added(old: Tree, new: Tree, index: WrappedIndex, parent: Option<WrappedIndex>) -> bool {
        match parent {
            Some(p) => {
                &&& new.parents@ == old.parents@.insert(index.0, p)
                &&& new.children@.dom() == old.children@.dom().insert(p.0)
                &&& new.kids(p.0) == old.kids(p.0).push(index)
                &&& forall|k: u64| k != p.0 ==> #[trigger] new.kids(k) == old.kids(k)
                &&& new.root_node == old.root_node
            },
            None => {
                &&& new.parents@ == old.parents@
                &&& new.children@ == old.children@
                &&& new.root_node == Some(index)
            },
        }
    }

    /// Adds `index` to the tree: under `parent` (as its last child), or as the new root.
    pub fn add(&mut self, index: WrappedIndex, parent: Option<WrappedIndex>)
        ensures
            Self::added(*old(self), *final(self), index, parent),
            old(self).wf() && !old(self).is_node(index.0) && (match parent {
                Some(p) => old(self).is_node(p.0),
                None => old(self).root_node is None,
            }) ==> final(self).wf(),
    {
        match parent {
            Some(p) => {
                let ghost d = self.depth@[p.0] + 1;
                self.parents.insert(index.0, p);
                let mut siblings = match self.children.remove(&p.0) {
                    Some(v) => v,
                    None => Vec::new(),
                };
                siblings.push(index);
                self.children.insert(p.0, siblings);
                self.depth = Ghost(self.depth@.insert(index.0, d));
                self.height_bound = Ghost(
                    if d + 1 > self.height_bound@ {
                        d + 1
                    } else {
                        self.height_bound@
                    },
                );
                proof {
                    assert(self.children@.dom() =~= old(self).children@.dom().insert(p.0));
                    assert forall|k: u64| k != p.0 implies #[trigger] self.kids(k) == old(self).kids(k) by {}
                    if old(self).wf() && !old(self).is_node(index.0) && old(self).is_node(p.0) {
                        self.lemma_add_child_wf(*old(self), index, p);
                    }
                }
            },
            None => {
                self.root_node = Some(index);
                self.depth = Ghost(Map::empty().insert(index.0, 0));
                self.height_bound = Ghost(1);
                proof {
                    if old(self).wf() && old(self).root_node is None {
                        assert(self.parents@.dom() =~= Set::empty());
                        assert forall|k: u64| #[trigger] self.children@.contains_key(k) implies self.child_list_ok(k) by {
                            assert(self.children@[k]@.len() == 0);
                        }
                    }
                }
            },
        }
    }

    /// The ancestor of `n` at depth `d` (or `n` itself when `n` is not deeper than `d`).
    pub open spec fn ancestor_at(self, n: u64, d: nat) -> u64
        decreases self.depth@[n],
        when self.wf()
    {
        if self.depth@[n] <= d {
            n
        } else {
            match self.parent_of(n) {
                Some(p) => {
                    proof {
                        assert(self.parent_link_ok(n));
                    }
                    self.ancestor_at(p.0, d)
                },
                None => n,
            }
        }
    }

    /// `n` lies strictly below `a` in the tree.
    pub open spec fn is_desc(self, n: u64, a: u64) -> bool {
        self.depth@[n] > self.depth@[a] && self.ancestor_at(n, self.depth@[a]) == a
    }

    /// `new` is `old` after `index` was removed and its children, in order, took its place
    /// among its siblings, with `index`'s parent as their new parent.
    pub open spec fn reparented(old: Tree, new: Tree, index: WrappedIndex) -> bool {
        &&& new.root_node == old.root_node
        &&& match old.parent_of(index.0) {
            None => {
                &&& new.parents@ == old.parents@
                &&& new.children@ == old.children@
            },
            Some(p) => {
                let sib = old.kids(p.0);
                let pos = first_pos(sib, index);
                let moved = old.kids(index.0);
                &&& new.parents@.dom() == old.parents@.dom().remove(index.0)
                &&& forall|n: u64| #[trigger]
                    new.parents@.contains_key(n) ==> new.parents@[n] == (if moved.contains(
                        WrappedIndex(n),
                    ) {
                        p
                    } else {
                        old.parents@[n]
                    })
                &&& new.kids(p.0) == sib.subrange(0, pos) + moved + sib.subrange(pos + 1, sib.len() as int)
                &&& !new.children@.contains_key(index.0)
                &&& forall|k: u64|
                    k != p.0 && k != index.0 ==> #[trigger] new.kids(k) == old.kids(k)
            },
        }
    }

    /// The shape of the tree: its parent links, its child lists and its root.
    pub open spec fn shape(self) -> (Map<u64, WrappedIndex>, Map<u64, Seq<WrappedIndex>>, Option<WrappedIndex>) {
        (self.parents@, Map::new(|k: u64| self.children@.contains_key(k), |k: u64| self.children@[k]@), self.root_node)
    }

    /// Removes `index`: a node with a parent leaves its parent's child list, loses its own
    /// child list, and its children lose their parent link (a node without a parent is
    /// detached); removing the root empties the tree; anything else is left as it is.
    pub fn remove(&mut self, index: WrappedIndex)
        ensures
            final(self).shape() == shape_remove(old(self).shape(), index.0),
    {
        match self.parents.remove(&index.0) {
            Some(p) => {
                let ghost s0 = old(self).shape();
                let ghost ck: Seq<WrappedIndex> = if s0.1.contains_key(index.0) {
                    s0.1[index.0]
                } else {
                    Seq::empty()
                };
                let ghost par1 = self.parents@;
                match self.children.remove(&index.0) {
                    Some(kids) => {
                        let mut i: usize = 0;
                        while i < kids.len()
                            invariant
                                i <= kids@.len(),
                                kids@ == ck,
                                self.children@ == old(self).children@.remove(index.0),
                                self.root_node == old(self).root_node,
                                self.parents@ == par1.remove_keys(
                                    Set::new(|c: u64| ck.take(i as int).contains(WrappedIndex(c))),
                                ),
                            decreases kids@.len() - i,
                        {
                            let c = kids[i];
                            self.parents.remove(&c.0);
                            proof {
                                assert(ck.take(i + 1) =~= ck.take(i as int).push(c));
                                assert forall|x: u64| #[trigger] ck.take(i + 1).contains(WrappedIndex(x)) <==> (ck.take(i as int).contains(WrappedIndex(x)) || x == c.0) by {
                                    let t1 = ck.take(i + 1);
                                    let t0 = ck.take(i as int);
                                    if t1.contains(WrappedIndex(x)) {
                                        let j = choose|j: int| 0 <= j < t1.len() && t1[j] == WrappedIndex(x);
                                        if j < i {
                                            assert(t0[j] == WrappedIndex(x));
                                        }
                                    }
                                    if t0.contains(WrappedIndex(x)) {
                                        let j = choose|j: int| 0 <= j < t0.len() && t0[j] == WrappedIndex(x);
                                        assert(t1[j] == WrappedIndex(x));
                                    }
                                    if x == c.0 {
                                        assert(t1[i as int] == WrappedIndex(x));
                                    }
                                }
                                assert(Set::new(|x: u64| ck.take(i + 1).contains(WrappedIndex(x))) =~= Set::new(
                                    |x: u64| ck.take(i as int).contains(WrappedIndex(x)),
                                ).insert(c.0));
                                assert(self.parents@ =~= par1.remove_keys(
                                    Set::new(|x: u64| ck.take(i + 1).contains(WrappedIndex(x))),
                                ));
                            }
                            i += 1;
                        }
                        assert(ck.take(kids@.len() as int) =~= ck);
                    },
                    None => {
                        assert(ck =~= Seq::<WrappedIndex>::empty());
                        assert(Set::new(|c: u64| ck.contains(WrappedIndex(c))) =~= Set::<u64>::empty());
                        assert(self.parents@ =~= par1.remove_keys(Set::new(|c: u64| ck.contains(WrappedIndex(c)))));
                    },
                }
                let ghost ch1 = self.children@;
                assert(ch1 =~= old(self).children@.remove(index.0));
                match self.children.remove(&p.0) {
                    Some(siblings) => {
                        let kept = without_exec(&siblings, index.0);
                        let ghost kept_view = kept@;
                        self.children.insert(p.0, kept);
                        proof {
                            assert(self.children@ =~= ch1.insert(p.0, self.children@[p.0]));
                            assert(self.children@[p.0]@ == kept_view);
                        }
                    },
                    None => {},
                }
                proof {
                    let s1 = self.shape();
                    let s2 = shape_remove(s0, index.0);
                    let kids1 = s0.1.remove(index.0);
                    assert(kids1 =~= Map::new(|k: u64| ch1.contains_key(k), |k: u64| ch1[k]@));
                    assert(s1.0 =~= s2.0);
                    assert(s1.1 =~= s2.1);
                }
            },
            None => {
                if self.root_node == Some(index) {
                    self.root_node = None;
                    self.parents.clear();
                    self.children.clear();
                    proof {
                        assert(self.shape().1 =~= Map::<u64, Seq<WrappedIndex>>::empty());
                    }
                } else {
                    proof {
                        assert(self.shape().1 =~= old(self).shape().1);
                    }
                }
            },
        }
    }

    /// Removes `index` from the tree; its children, in order, take its place among its
    /// siblings and get its parent as their new parent. Nothing changes when `index` has
    /// no parent. The root cannot be removed this way.
    pub fn remove_and_reparent(&mut self, index: WrappedIndex)
        requires
            old(self).wf(),
            old(self).root_node != Some(index),
        ensures
            Self::reparented(*old(self), *final(self), index),
            final(self).wf(),
    {
        let ghost old_t = *self;
        let parent = self.parents.remove(&index.0);
        match parent {
            Some(p) => {
                proof {
                    assert(old_t.parent_link_ok(index.0));
                    old_t.lemma_parent_lists(index.0);
                    assert(p.0 != index.0);
                }
                let mut siblings = match self.children.remove(&p.0) {
                    Some(v) => v,
                    None => Vec::new(),
                };
                let pos = match position_in(&siblings, index) {
                    Some(i) => i,
                    None => 0,
                };
                proof {
                    lemma_first_pos(siblings@, index, pos as int);
                }
                siblings.remove(pos);
                let mut moved = match self.children.remove(&index.0) {
                    Some(v) => v,
                    None => Vec::new(),
                };
                assert(moved@ == old_t.kids(index.0));
                let ghost p0 = self.parents@;
                let ghost c0 = self.children@;
                proof {
                    if old_t.children@.contains_key(index.0) {
                        assert(old_t.child_list_ok(index.0));
                    }
                }
                let mut i: usize = 0;
                while i < moved.len()
                    invariant
                        i <= moved.len(),
                        moved@ == old_t.kids(index.0),
                        forall|j: int| 0 <= j < moved@.len() ==> #[trigger] p0.contains_key(moved@[j].0),
                        self.parents@.dom() == p0.dom(),
                        self.children@ == c0,
                        self.root_node == old_t.root_node,
                        self.height_bound@ == old_t.height_bound@,
                        forall|n: u64| #[trigger]
                            self.parents@.contains_key(n) ==> self.parents@[n] == (if moved@.subrange(
                                0,
                                i as int,
                            ).contains(WrappedIndex(n)) {
                                p
                            } else {
                                p0[n]
                            }),
                    decreases moved.len() - i,
                {
                    let ghost before = self.parents@;
                    self.parents.insert(moved[i].0, p);
                    proof {
                        assert(p0.contains_key(moved@[i as int].0));
                        assert(self.parents@.dom() =~= p0.dom());
                        assert forall|n: u64| #[trigger] self.parents@.contains_key(n) implies self.parents@[n] == (if moved@.subrange(0, i + 1).contains(WrappedIndex(n)) {
                            p
                        } else {
                            p0[n]
                        }) by {
                            let a = moved@.subrange(0, i as int);
                            let b = moved@.subrange(0, i + 1);
                            assert(b == a.push(moved@[i as int]));
                            if n == moved@[i as int].0 {
                                assert(b[i as int] == WrappedIndex(n));
                            } else {
                                if b.contains(WrappedIndex(n)) {
                                    let j = choose|j: int| 0 <= j < b.len() && b[j] == WrappedIndex(n);
                                    assert(a[j] == WrappedIndex(n));
                                }
                                if a.contains(WrappedIndex(n)) {
                                    let j = choose|j: int| 0 <= j < a.len() && a[j] == WrappedIndex(n);
                                    assert(b[j] == WrappedIndex(n));
                                }
                            }
                        }
                    }
                    i += 1;
                }
                assert(moved@.subrange(0, moved@.len() as int) == moved@);
                let mut tail = siblings.split_off(pos);
                siblings.append(&mut moved);
                siblings.append(&mut tail);
                self.children.insert(p.0, siblings);
                let ghost d = old_t.depth@;
                self.depth = Ghost(
                    Map::new(
                        |n: u64| d.dom().remove(index.0).contains(n),
                        |n: u64|
                            if old_t.is_desc(n, index.0) {
                                (d[n] - 1) as nat
                            } else {
                                d[n]
                            },
                    ),
                );
                proof {
                    let sib = old_t.kids(p.0);
                    assert(self.kids(p.0) =~= sib.subrange(0, pos as int) + old_t.kids(index.0)
                        + sib.subrange(pos + 1, sib.len() as int));
                    assert(self.children@.dom() =~= old_t.children@.dom().remove(index.0).insert(p.0));
                    assert forall|k: u64| k != p.0 && k != index.0 implies #[trigger] self.kids(k) == old_t.kids(k) by {}
                    assert(self.parents@.dom() =~= old_t.parents@.dom().remove(index.0));
                    self.lemma_reparent_wf(old_t, index, p);
                }
            },
            None => {
                assert(self.parents@ =~= old_t.parents@);
            },
        }
    }

    /// Whether `index` is a node of the tree.
    pub fn contains(&self, index: WrappedIndex) -> (r: bool)
        ensures
            r == self.is_node(index.0),
    {
        if self.parents.contains_key(&index.0) {
            return true;
        }
        match self.root_node {
            Some(root) => root == index,
            None => false,
        }
    }

    /// The parent of `index`, if it has one.
    pub fn get_parent(&self, index: WrappedIndex) -> (r: Option<WrappedIndex>)
        ensures
            r == self.parent_of(index.0),
            self.wf() && r is Some ==> {
                &&& self.is_node((r->0).0)
                &&& self.depth_of(index.0) == self.depth_of((r->0).0) + 1
            },
    {
        proof {
            if self.wf() && self.parents@.contains_key(index.0) {
                assert(self.parent_link_ok(index.0));
            }
        }
        match self.parents.get(&index.0) {
            Some(p) => Some(*p),
            None => None,
        }
    }

    /// The first child of `index`, if any.
    pub fn get_first_child(&self, index: WrappedIndex) -> (r: Option<WrappedIndex>)
        ensures
            r == self.first_child(index.0),
    {
        match self.children.get(&index.0) {
            Some(v) => if v.len() > 0 {
                Some(v[0])
            } else {
                None
            },
            None => None,
        }
    }

    /// The last child of `index`, if any.
    pub fn get_last_child(&self, index: WrappedIndex) -> (r: Option<WrappedIndex>)
        ensures
            r == self.last_child(index.0),
            self.wf() && r is Some ==> {
                &&& self.is_node((r->0).0)
                &&& self.depth_of((r->0).0) == self.depth_of(index.0) + 1
                &&& self.depth_of((r->0).0) < self.bound()
            },
    {
        proof {
            if self.wf() && self.last_child(index.0) is Some {
                self.lemma_last_child_deeper(index.0);
            }
        }
        match self.children.get(&index.0) {
            Some(v) => if v.len() > 0 {
                Some(v[v.len() - 1])
            } else {
                None
            },
            None => None,
        }
    }

    /// The sibling that follows `index`, if any.
    pub fn get_next_sibling(&self, index: WrappedIndex) -> (r: Option<WrappedIndex>)
        ensures
            r == self.next_sibling(index.0),
    {
        match self.get_parent(index) {
            Some(parent) => match self.children.get(&parent.0) {
                Some(siblings) => match position_in(siblings, index) {
                    Some(i) => {
                        proof {
                            lemma_first_pos(siblings@, index, i as int);
                        }
                        if i < siblings.len() - 1 {
                            Some(siblings[i + 1])
                        } else {
                            None
                        }
                    },
                    None => None,
                },
                None => None,
            },
            None => None,
        }
    }

    /// The sibling that precedes `index`, if any.
    pub fn get_prev_sibling(&self, index: WrappedIndex) -> (r: Option<WrappedIndex>)
        ensures
            r == self.prev_sibling(index.0),
    {
        match self.get_parent(index) {
            Some(parent) => match self.children.get(&parent.0) {
                Some(siblings) => match position_in(siblings, index) {
                    Some(i) => {
                        proof {
                            lemma_first_pos(siblings@, index, i as int);
                        }
                        if i > 0 {
                            Some(siblings[i - 1])
                        } else {
                            None
                        }
                    },
                    None => None,
                },
                None => None,
            },
            None => None,
        }
    }

    /// The last child of a node lies one level deeper, within the height bound.
    pub proof fn lemma_last_child_deeper(self, n: u64)
        requires
            self.wf(),
            self.last_child(n) is Some,
        ensures
            self.is_node((self.last_child(n)->0).0),
            self.parent_of((self.last_child(n)->0).0) == Some(WrappedIndex(n)),
            self.depth@.contains_key(n),
            self.depth@[(self.last_child(n)->0).0] == self.depth@[n] + 1,
            self.depth@[(self.last_child(n)->0).0] < self.height_bound@,
    {
        let c = self.last_child(n)->0;
        assert(self.children@.contains_key(n));
        assert(self.child_list_ok(n));
        let s = self.children@[n]@;
        assert(s[s.len() - 1] == c);
        assert(self.parents@.contains_key(c.0));
        assert(self.parent_link_ok(c.0));
    }

    /// In a sequence without duplicates that contains `x`, the first position of `x` holds `x`.
    proof fn lemma_contains_first_pos(s: Seq<WrappedIndex>, x: WrappedIndex)
        requires
            s.no_duplicates(),
            s.contains(x),
        ensures
            is_first_pos(s, x, first_pos(s, x)),
    {
        let j = choose|j: int| 0 <= j < s.len() && s[j] == x;
        lemma_pos_no_dup(s, x, j);
    }

    /// Facts about the child at position `i` of `p`'s child list.
    proof fn lemma_kid_at(self, p: u64, i: int)
        requires
            self.wf(),
            0 <= i < self.kids(p).len(),
        ensures
            self.kids(p)[i] == WrappedIndex(self.kids(p)[i].0),
            self.parent_of(self.kids(p)[i].0) == Some(WrappedIndex(p)),
            first_pos(self.kids(p), self.kids(p)[i]) == i,
            self.kids(p).contains(self.kids(p)[i]),
            self.is_node(self.kids(p)[i].0),
            self.is_node(p),
            self.kids(p).no_duplicates(),
    {
        assert(self.children@.contains_key(p));
        assert(self.child_list_ok(p));
        let c = self.children@[p]@[i];
        assert(self.parents@.contains_key(c.0));
        assert(self.parent_link_ok(c.0));
        lemma_pos_no_dup(self.kids(p), c, i);
    }

    /// A node's parent lists it among its children, without duplicates.
    proof fn lemma_parent_lists(self, x: u64)
        requires
            self.wf(),
            self.parent_of(x) is Some,
        ensures
            self.kids((self.parent_of(x)->0).0).contains(WrappedIndex(x)),
            self.kids((self.parent_of(x)->0).0).no_duplicates(),
            is_first_pos(
                self.kids((self.parent_of(x)->0).0),
                WrappedIndex(x),
                first_pos(self.kids((self.parent_of(x)->0).0), WrappedIndex(x)),
            ),
    {
        assert(self.parent_link_ok(x));
        let p = self.parents@[x].0;
        assert(self.kids(p).contains(WrappedIndex(x)));
        assert(self.children@.contains_key(p));
        assert(self.child_list_ok(p));
        Self::lemma_contains_first_pos(self.kids(p), WrappedIndex(x));
    }

    /// The sibling after `y` has `y` as its previous sibling.
    proof fn lemma_next_then_prev_sibling(self, y: u64)
        requires
            self.wf(),
            self.next_sibling(y) is Some,
        ensures
            self.prev_sibling((self.next_sibling(y)->0).0) == Some(WrappedIndex(y)),
            self.parent_of((self.next_sibling(y)->0).0) == self.parent_of(y),
            self.is_node((self.next_sibling(y)->0).0),
    {
        self.lemma_parent_lists(y);
        let p = (self.parent_of(y)->0).0;
        let i = first_pos(self.kids(p), WrappedIndex(y));
        self.lemma_kid_at(p, i + 1);
    }

    /// The sibling before `x` has `x` as its next sibling.
    proof fn lemma_prev_then_next_sibling(self, x: u64)
        requires
            self.wf(),
            self.prev_sibling(x) is Some,
        ensures
            self.next_sibling((self.prev_sibling(x)->0).0) == Some(WrappedIndex(x)),
            self.is_node((self.prev_sibling(x)->0).0),
    {
        self.lemma_parent_lists(x);
        let p = (self.parent_of(x)->0).0;
        let i = first_pos(self.kids(p), WrappedIndex(x));
        self.lemma_kid_at(p, i - 1);
    }

    /// A node's parent lies one level closer to the root.
    pub proof fn lemma_parent_shallower(self, n: u64)
        requires
            self.wf(),
            self.parents@.contains_key(n),
        ensures
            self.depth@.contains_key(n),
            self.depth@.contains_key(self.parents@[n].0),
            self.depth@[self.parents@[n].0] < self.depth@[n],
            self.is_node(self.parents@[n].0),
    {
        assert(self.parent_link_ok(n));
    }

    /// The first child of `x` has parent `x` and no previous sibling.
    proof fn lemma_first_child_facts(self, x: u64)
        requires
            self.wf(),
            self.first_child(x) is Some,
        ensures
            self.parent_of((self.first_child(x)->0).0) == Some(WrappedIndex(x)),
            self.prev_sibling((self.first_child(x)->0).0) is None,
            self.is_node((self.first_child(x)->0).0),
    {
        self.lemma_kid_at(x, 0);
    }

    /// The last child of `y` has parent `y` and no next sibling.
    proof fn lemma_last_child_facts(self, y: u64)
        requires
            self.wf(),
            self.last_child(y) is Some,
        ensures
            self.parent_of((self.last_child(y)->0).0) == Some(WrappedIndex(y)),
            self.next_sibling((self.last_child(y)->0).0) is None,
            self.is_node((self.last_child(y)->0).0),
    {
        self.lemma_kid_at(y, self.kids(y).len() - 1);
    }

    /// A node with a parent and no previous sibling is its parent's first child.
    proof fn lemma_no_prev_is_first(self, x: u64)
        requires
            self.wf(),
            self.parent_of(x) is Some,
            self.prev_sibling(x) is None,
        ensures
            self.first_child((self.parent_of(x)->0).0) == Some(WrappedIndex(x)),
    {
        self.lemma_parent_lists(x);
    }

    /// A node with a parent and no next sibling is its parent's last child.
    proof fn lemma_no_next_is_last(self, y: u64)
        requires
            self.wf(),
            self.parent_of(y) is Some,
            self.next_sibling(y) is None,
        ensures
            self.last_child((self.parent_of(y)->0).0) == Some(WrappedIndex(y)),
    {
        self.lemma_parent_lists(y);
    }

    /// The last descendant of a node is a node without children.
    pub proof fn lemma_last_desc_facts(self, n: u64)
        requires
            self.wf(),
            self.is_node(n),
        ensures
            self.is_node(self.last_desc(n).0),
            self.first_child(self.last_desc(n).0) is None,
            self.last_child(self.last_desc(n).0) is None,
        decreases self.height_bound@ - self.depth@[n],
    {
        match self.last_child(n) {
            Some(c) => {
                self.lemma_last_child_deeper(n);
                self.lemma_last_desc_facts(c.0);
            },
            None => {},
        }
    }

    /// If `x` is the last descendant of `y` and the walk up from `y` finds `u`,
    /// then the pre-order predecessor of `u` is `x`.
    proof fn lemma_up_next_prev(self, y: u64, x: WrappedIndex)
        requires
            self.wf(),
            self.is_node(y),
            self.last_desc(y) == x,
            self.up_next(y) is Some,
        ensures
            self.preorder_prev(self.up_next(y)) == Some(x),
        decreases self.depth@[y],
    {
        match self.next_sibling(y) {
            Some(u) => {
                self.lemma_next_then_prev_sibling(y);
            },
            None => {
                let p = self.parent_of(y)->0;
                assert(self.parent_link_ok(y));
                self.lemma_no_next_is_last(y);
                assert(self.last_desc(p.0) == self.last_desc(y));
                self.lemma_up_next_prev(p.0, x);
            },
        }
    }

    /// If `x` is the last descendant of `y` and the walk up from `y` finds nothing,
    /// then `x` is the last descendant of the root.
    proof fn lemma_up_none_root(self, y: u64, x: WrappedIndex)
        requires
            self.wf(),
            self.is_node(y),
            self.last_desc(y) == x,
            self.up_next(y) is None,
        ensures
            self.root_node == Some(WrappedIndex(y)) || self.parent_of(y) is Some,
            self.root_node is Some,
            self.last_desc((self.root_node->0).0) == x,
        decreases self.depth@[y],
    {
        match self.parent_of(y) {
            Some(p) => {
                assert(self.parent_link_ok(y));
                self.lemma_no_next_is_last(y);
                assert(self.last_desc(p.0) == self.last_desc(y));
                self.lemma_up_none_root(p.0, x);
            },
            None => {
                assert(self.root_node == Some(WrappedIndex(y)));
            },
        }
    }

    /// The walk up from the last descendant of `y` finds what the walk up from `y` finds.
    proof fn lemma_up_next_last_desc(self, y: u64)
        requires
            self.wf(),
            self.is_node(y),
        ensures
            self.up_next(self.last_desc(y).0) == self.up_next(y),
        decreases self.height_bound@ - self.depth@[y],
    {
        match self.last_child(y) {
            Some(c) => {
                self.lemma_last_child_deeper(y);
                self.lemma_last_child_facts(y);
                self.lemma_up_next_last_desc(c.0);
            },
            None => {},
        }
    }

    /// Stepping back in pre-order undoes stepping forward: for every node `x` of a
    /// well-formed tree, the predecessor of the successor of `x` is `x`.
    pub proof fn lemma_prev_undoes_next(self, x: WrappedIndex)
        requires
            self.wf(),
            self.is_node(x.0),
        ensures
            self.preorder_prev(self.preorder_next(Some(x))) == Some(x),
    {
        assert(x == WrappedIndex(x.0));
        match self.first_child(x.0) {
            Some(c) => {
                self.lemma_first_child_facts(x.0);
            },
            None => {
                assert(self.last_desc(x.0) == x);
                match self.up_next(x.0) {
                    Some(u) => {
                        self.lemma_up_next_prev(x.0, x);
                    },
                    None => {
                        self.lemma_up_none_root(x.0, x);
                        let r = self.root_node->0;
                        assert(r == WrappedIndex(r.0));
                        assert(!self.parents@.contains_key(r.0));
                    },
                }
            },
        }
    }

    /// Stepping forward in pre-order undoes stepping back: for every node `x` of a
    /// well-formed tree, the successor of the predecessor of `x` is `x`.
    pub proof fn lemma_next_undoes_prev(self, x: WrappedIndex)
        requires
            self.wf(),
            self.is_node(x.0),
        ensures
            self.preorder_next(self.preorder_prev(Some(x))) == Some(x),
    {
        assert(x == WrappedIndex(x.0));
        match self.prev_sibling(x.0) {
            Some(s) => {
                self.lemma_prev_then_next_sibling(x.0);
                self.lemma_last_desc_facts(s.0);
                self.lemma_up_next_last_desc(s.0);
            },
            None => match self.parent_of(x.0) {
                Some(p) => {
                    self.lemma_no_prev_is_first(x.0);
                },
                None => {
                    assert(self.root_node == Some(x));
                    self.lemma_last_desc_facts(x.0);
                    self.lemma_up_next_last_desc(x.0);
                },
            },
        }
    }

    /// The pre-order successor and predecessor of any position stay within the tree.
    pub proof fn lemma_preorder_in_tree(self, cur: Option<WrappedIndex>)
        requires
            self.wf(),
            self.root_node is Some,
            cur matches Some(x) ==> self.is_node(x.0),
        ensures
            self.preorder_next(cur) matches Some(n) && self.is_node(n.0),
            self.preorder_prev(cur) matches Some(n) && self.is_node(n.0),
    {
        let r = self.root_node->0;
        assert(r == WrappedIndex(r.0));
        match cur {
            Some(x) => {
                assert(x == WrappedIndex(x.0));
                if self.first_child(x.0) is Some {
                    self.lemma_first_child_facts(x.0);
                } else if self.up_next(x.0) is Some {
                    self.lemma_up_next_is_node(x.0);
                }
                match self.prev_sibling(x.0) {
                    Some(s) => {
                        self.lemma_prev_then_next_sibling(x.0);
                        self.lemma_last_desc_facts(s.0);
                    },
                    None => match self.parent_of(x.0) {
                        Some(p) => {
                            assert(self.parent_link_ok(x.0));
                            assert(p == WrappedIndex(p.0));
                        },
                        None => {
                            self.lemma_last_desc_facts(x.0);
                        },
                    },
                }
            },
            None => {},
        }
    }

    /// The walk up from a node finds a node.
    proof fn lemma_up_next_is_node(self, y: u64)
        requires
            self.wf(),
            self.is_node(y),
            self.up_next(y) is Some,
        ensures
            self.is_node((self.up_next(y)->0).0),
        decreases self.depth@[y],
    {
        match self.next_sibling(y) {
            Some(u) => {
                self.lemma_next_then_prev_sibling(y);
            },
            None => {
                let p = self.parent_of(y)->0;
                assert(self.parent_link_ok(y));
                self.lemma_up_next_is_node(p.0);
            },
        }
    }

    /// Below a node other than `a`, descending from `a` is decided by the parent.
    proof fn lemma_desc_step(self, n: u64, a: u64)
        requires
            self.wf(),
            self.parents@.contains_key(n),
            self.parents@[n].0 != a,
            self.depth@.contains_key(a),
        ensures
            self.is_desc(n, a) == self.is_desc(self.parents@[n].0, a),
    {
        assert(self.parent_link_ok(n));
        let q = self.parents@[n].0;
        let da = self.depth@[a];
        if self.depth@[n] > da {
            assert(self.ancestor_at(n, da) == self.ancestor_at(q, da));
            if self.depth@[q] <= da {
                assert(self.ancestor_at(q, da) == q);
            }
        }
    }

    /// A child of `a` descends from `a`.
    proof fn lemma_child_is_desc(self, n: u64, a: u64)
        requires
            self.wf(),
            self.parents@.contains_key(n),
            self.parents@[n].0 == a,
        ensures
            self.is_desc(n, a),
    {
        assert(self.parent_link_ok(n));
        assert(self.depth@.contains_key(a));
        assert(self.ancestor_at(a, self.depth@[a]) == a);
    }

    /// The tree that results from removing a non-root node and moving its children into
    /// its place is well formed.
    proof fn lemma_reparent_wf(self, old_t: Tree, index: WrappedIndex, p: WrappedIndex)
        requires
            old_t.wf(),
            old_t.parents@.contains_key(index.0),
            old_t.parents@[index.0] == p,
            Self::reparented(old_t, self, index),
            self.children@.dom() == old_t.children@.dom().remove(index.0).insert(p.0),
            self.height_bound@ == old_t.height_bound@,
            self.depth@ == Map::new(
                |n: u64| old_t.depth@.dom().remove(index.0).contains(n),
                |n: u64|
                    if old_t.is_desc(n, index.0) {
                        (old_t.depth@[n] - 1) as nat
                    } else {
                        old_t.depth@[n]
                    },
            ),
        ensures
            self.wf(),
    {
        let d = old_t.depth@;
        let sib = old_t.kids(p.0);
        let moved = old_t.kids(index.0);
        assert(old_t.parent_link_ok(index.0));
        old_t.lemma_parent_lists(index.0);
        let pos = first_pos(sib, index);
        assert(index == WrappedIndex(index.0));
        assert(p.0 != index.0);
        let r = old_t.root_node->0;
        assert(r != index);
        assert(r.0 != index.0);
        // the root
        assert(!old_t.is_desc(r.0, index.0));
        // moved nodes are exactly the nodes whose parent was `index`
        assert forall|n: u64| old_t.parents@.contains_key(n) && old_t.parents@[n].0 == index.0 implies #[trigger] moved.contains(WrappedIndex(n)) by {
            assert(old_t.parent_link_ok(n));
        }
        assert forall|j: int| 0 <= j < moved.len() implies {
            &&& old_t.parents@.contains_key(#[trigger] moved[j].0)
            &&& old_t.parents@[moved[j].0].0 == index.0
            &&& moved[j].0 != index.0
        } by {
            old_t.lemma_kid_at(index.0, j);
            assert(old_t.parent_link_ok(moved[j].0));
        }
        // the kids of p are each other's siblings and never in `moved`
        assert forall|j: int| 0 <= j < sib.len() implies {
            &&& old_t.parents@.contains_key(#[trigger] sib[j].0)
            &&& old_t.parents@[sib[j].0].0 == p.0
            &&& !moved.contains(sib[j])
        } by {
            old_t.lemma_kid_at(p.0, j);
            if moved.contains(sib[j]) {
                let m = choose|m: int| 0 <= m < moved.len() && moved[m] == sib[j];
                assert(old_t.parents@[moved[m].0].0 == index.0);
            }
        }
        // parent links
        assert forall|n: u64| #[trigger] self.parents@.contains_key(n) implies self.parent_link_ok(n) by {
            assert(old_t.parents@.contains_key(n));
            assert(old_t.parent_link_ok(n));
            let q = old_t.parents@[n].0;
            if moved.contains(WrappedIndex(n)) {
                let m = choose|m: int| 0 <= m < moved.len() && moved[m] == WrappedIndex(n);
                assert(moved[m].0 == n);
                assert(q == index.0);
                old_t.lemma_child_is_desc(n, index.0);
                assert(!old_t.is_desc(p.0, index.0));
                assert(self.parents@[n] == p);
                let nk = self.kids(p.0);
                assert(nk[pos + m] == moved[m]);
                assert(nk.contains(WrappedIndex(n)));
                if old_t.root_node != Some(p) {
                    assert(self.parents@.contains_key(p.0));
                }
            } else {
                assert(self.parents@[n] == old_t.parents@[n]);
                if q == index.0 {
                    assert(moved.contains(WrappedIndex(n)));
                }
                old_t.lemma_desc_step(n, index.0);
                if old_t.root_node != Some(WrappedIndex(q)) {
                    assert(old_t.parents@.contains_key(q));
                    assert(self.parents@.contains_key(q));
                }
                if q == p.0 {
                    let j = first_pos(sib, WrappedIndex(n));
                    Self::lemma_contains_first_pos(sib, WrappedIndex(n));
                    assert(j != pos);
                    let nk = self.kids(p.0);
                    if j < pos {
                        assert(nk[j] == sib[j]);
                    } else {
                        assert(nk[j - 1 + moved.len()] == sib[j]);
                    }
                    assert(nk.contains(WrappedIndex(n)));
                } else {
                    assert(self.kids(q) == old_t.kids(q));
                }
            }
        }
        // child lists
        assert forall|k: u64| #[trigger] self.children@.contains_key(k) implies self.child_list_ok(k) by {
            if k == p.0 {
                let nk = self.children@[k]@;
                assert(nk == sib.subrange(0, pos) + moved + sib.subrange(pos + 1, sib.len() as int));
                assert(old_t.children@.contains_key(p.0));
                assert(old_t.child_list_ok(p.0));
                if old_t.children@.contains_key(index.0) {
                    assert(old_t.child_list_ok(index.0));
                }
                let ml = moved.len() as int;
                assert forall|i: int| 0 <= i < nk.len() implies {
                    let c = #[trigger] nk[i];
                    &&& self.parents@.contains_key(c.0)
                    &&& self.parents@[c.0].0 == k
                } by {
                    if i < pos {
                        assert(nk[i] == sib[i]);
                    } else if i < pos + ml {
                        assert(nk[i] == moved[i - pos]);
                        assert(moved.contains(nk[i]));
                        assert(nk[i] == WrappedIndex(nk[i].0));
                    } else {
                        assert(nk[i] == sib[i - ml + 1]);
                    }
                }
                assert forall|i: int, j: int| 0 <= i < nk.len() && 0 <= j < nk.len() && i != j implies nk[i] != nk[j] by {
                    if i < pos {
                        if j < pos {
                        } else if j < pos + ml {
                            assert(!moved.contains(sib[i]));
                            assert(moved[j - pos] == nk[j]);
                        } else {
                            assert(nk[j] == sib[j - ml + 1]);
                        }
                    } else if i < pos + ml {
                        if j < pos {
                            assert(!moved.contains(sib[j]));
                            assert(moved[i - pos] == nk[i]);
                        } else if j < pos + ml {
                        } else {
                            assert(nk[j] == sib[j - ml + 1]);
                            assert(!moved.contains(sib[j - ml + 1]));
                            assert(moved[i - pos] == nk[i]);
                        }
                    } else {
                        assert(nk[i] == sib[i - ml + 1]);
                        if j < pos {
                        } else if j < pos + ml {
                            assert(!moved.contains(sib[i - ml + 1]));
                            assert(moved[j - pos] == nk[j]);
                        } else {
                            assert(nk[j] == sib[j - ml + 1]);
                        }
                    }
                }
            } else {
                assert(k != index.0);
                assert(self.kids(k) == old_t.kids(k));
                assert(old_t.children@.contains_key(k));
                assert(old_t.child_list_ok(k));
                assert forall|i: int| 0 <= i < self.children@[k]@.len() implies {
                    let c = #[trigger] self.children@[k]@[i];
                    &&& self.parents@.contains_key(c.0)
                    &&& self.parents@[c.0].0 == k
                } by {
                    let c = old_t.children@[k]@[i];
                    assert(old_t.parents@[c.0].0 == k);
                    assert(c.0 != index.0);
                    if moved.contains(WrappedIndex(c.0)) {
                        let m = choose|m: int| 0 <= m < moved.len() && moved[m] == WrappedIndex(c.0);
                        assert(old_t.parents@[moved[m].0].0 == index.0);
                    }
                }
            }
        }
        assert forall|n: u64| #[trigger] self.depth@.contains_key(n) implies self.depth@[n] < self.height_bound@ by {
            assert(d.contains_key(n));
        }
        if self.root_node is None {
            assert(false);
        }
    }

    proof fn lemma_add_child_wf(self, old_t: Tree, index: WrappedIndex, p: WrappedIndex)
        requires
            old_t.wf(),
            !old_t.is_node(index.0),
            old_t.is_node(p.0),
            self.parents@ == old_t.parents@.insert(index.0, p),
            self.children@.dom() == old_t.children@.dom().insert(p.0),
            self.kids(p.0) == old_t.kids(p.0).push(index),
            forall|k: u64| k != p.0 ==> #[trigger] self.kids(k) == old_t.kids(k),
            self.root_node == old_t.root_node,
            self.depth@ == old_t.depth@.insert(index.0, old_t.depth@[p.0] + 1),
            self.height_bound@ >= old_t.height_bound@,
            self.height_bound@ > old_t.depth@[p.0] + 1,
        ensures
            self.wf(),
    {
        assert(old_t.depth@.contains_key(p.0));
        assert(!old_t.depth@.contains_key(index.0) || true);
        assert forall|n: u64| #[trigger] self.parents@.contains_key(n) implies self.parent_link_ok(n) by {
            if n != index.0 {
                assert(old_t.parent_link_ok(n));
                let q = old_t.parents@[n].0;
                if q == p.0 {
                    assert(self.kids(q) == old_t.kids(q).push(index));
                    assert(old_t.kids(q).contains(WrappedIndex(n)));
                    let j = choose|j: int| 0 <= j < old_t.kids(q).len() && old_t.kids(q)[j] == WrappedIndex(n);
                    assert(self.kids(q)[j] == WrappedIndex(n));
                } else {
                    assert(self.kids(q) == old_t.kids(q));
                }
                assert(n != index.0);
            } else {
                assert(self.kids(p.0)[self.kids(p.0).len() - 1] == index);
            }
        }
        assert forall|k: u64| #[trigger] self.children@.contains_key(k) implies self.child_list_ok(k) by {
            if k == p.0 {
                let s = self.children@[k]@;
                assert(s == old_t.kids(p.0).push(index));
                assert forall|i: int, j: int| 0 <= i < s.len() && 0 <= j < s.len() && i != j implies s[i] != s[j] by {
                    if i < s.len() - 1 && j < s.len() - 1 {
                        if old_t.children@.contains_key(k) {
                            assert(old_t.child_list_ok(k));
                        }
                    } else if i == s.len() - 1 {
                        if old_t.children@.contains_key(k) {
                            assert(old_t.child_list_ok(k));
                            assert(old_t.children@[k]@[j] == s[j]);
                        }
                    } else {
                        if old_t.children@.contains_key(k) {
                            assert(old_t.child_list_ok(k));
                            assert(old_t.children@[k]@[i] == s[i]);
                        }
                    }
                }
                assert forall|i: int| 0 <= i < s.len() implies {
                    let c = #[trigger] self.children@[k]@[i];
                    &&& self.parents@.contains_key(c.0)
                    &&& self.parents@[c.0].0 == k
                } by {
                    if i < s.len() - 1 {
                        assert(old_t.children@.contains_key(k));
                        assert(old_t.child_list_ok(k));
                        assert(old_t.children@[k]@[i] == s[i]);
                    }
                }
            } else {
                assert(self.kids(k) == old_t.kids(k));
                assert(old_t.children@.contains_key(k));
                assert(old_t.child_list_ok(k));
                assert forall|i: int| 0 <= i < self.children@[k]@.len() implies {
                    let c = #[trigger] self.children@[k]@[i];
                    &&& self.parents@.contains_key(c.0)
                    &&& self.parents@[c.0].0 == k
                } by {
                    assert(old_t.children@[k]@[i] == self.children@[k]@[i]);
                }
            }
        }
    }
}

} // verus!
