use vstd::prelude::*;

use crate::node::WrappedIndex;
use crate::widget_context::KayakWidgetContext;

verus! {

/// Defers widgets being added to the widget tree: the widget entities, in order.
#[derive(Debug, Clone, PartialEq, Eq)]
pub struct KChildren {
    inner: Vec<u64>,
}

impl Default for KChildren {
    /// No children.
    fn default() -> (r: Self)
        ensures
            r.view() == Seq::<u64>::empty(),
    {
        KChildren::new()
    }
}

impl KChildren {
    /// The stored widget entities, in order.
    pub closed spec fn view(self) -> Seq<u64> {
        self.inner@
    }

    /// No children.
    pub fn new() -> (r: Self)
        ensures
            r.view() == Seq::<u64>::empty(),
    {
        Self { inner: Vec::new() }
    }

    /// Adds a widget entity to child storage.
    pub fn add(&mut self, widget_entity: u64)
        ensures
            final(self).view() == old(self).view().push(widget_entity),
    {
        self.inner.push(widget_entity);
    }

    /// The child at `index`, if any.
    pub fn get(&self, index: usize) -> (r: Option<u64>)
        ensures
            r == (if index < self.view().len() {
                Some(self.view()[index as int])
            } else {
                None
            }),
    {
        if index < self.inner.len() {
            Some(self.inner[index])
        } else {
            None
        }
    }

    /// Removes and returns the child at `index`, if any; later children move up.
    pub fn remove(&mut self, index: usize) -> (r: Option<u64>)
        ensures
            if index < old(self).view().len() {
                &&& r == Some(old(self).view()[index as int])
                &&& final(self).view() == old(self).view().remove(index as int)
            } else {
                &&& r is None
                &&& final(self).view() == old(self).view()
            },
    {
        if index < self.inner.len() {
            Some(self.inner.remove(index))
        } else {
            None
        }
    }

    /// An iterator over the children, in order.
    pub fn iter(&self) -> (r: std::slice::Iter<'_, u64>)
        ensures
            vstd::std_specs::iter::IteratorSpec::remaining(&r) == self.view().as_ref(),
    {
        proof {
            broadcast use vstd::std_specs::slice::axiom_spec_slice_iter;
        }
        self.inner.as_slice().iter()
    }

    /// The number of children.
    pub fn len(&self) -> (r: usize)
        ensures
            r == self.view().len(),
    {
        self.inner.len()
    }

    /// Whether there are no children.
    pub fn is_empty(&self) -> (r: bool)
        ensures
            r == (self.view().len() == 0),
    {
        self.inner.len() == 0
    }

    /// Takes all children out, in order, so that their entities can be despawned.
    pub fn despawn(&mut self) -> (r: Vec<u64>)
        ensures
            r@ == old(self).view(),
            final(self).view() == Seq::<u64>::empty(),
    {
        let mut taken = Vec::new();
        std::mem::swap(&mut taken, &mut self.inner);
        taken
    }

    /// Adds each child to the widget context's new tree, in order, under `parent_id` (as the
    /// root when there is no parent; the last child then ends up as the root).
    ///
    /// No child may be its own parent: such a child would close a cycle in the tree, and
    /// walks up or down the tree would never end.
    pub fn process(&self, widget_context: &mut KayakWidgetContext, parent_id: Option<u64>)
        requires
            forall|i: int| 0 <= i < self.view().len() ==> Some(#[trigger] self.view()[i]) != parent_id,
        ensures
            final(widget_context).old_tree == old(widget_context).old_tree,
            final(widget_context).order_tree == old(widget_context).order_tree,
            final(widget_context).index == old(widget_context).index,
            match parent_id {
                Some(p) => {
                    let t0 = old(widget_context).new_tree;
                    let t1 = final(widget_context).new_tree;
                    &&& t1.kids(p) == t0.kids(p) + self.view().map_values(|c: u64| WrappedIndex(c))
                    &&& forall|k: u64| k != p ==> #[trigger] t1.kids(k) == t0.kids(k)
                    &&& forall|n: u64| #[trigger] t1.parents@.contains_key(n) <==> (t0.parents@.contains_key(n)
                        || self.view().contains(n))
                    &&& forall|n: u64| #[trigger] self.view().contains(n) ==> t1.parents@[n] == WrappedIndex(p)
                    &&& forall|n: u64| t0.parents@.contains_key(n) && !self.view().contains(n)
                        ==> #[trigger] t1.parents@[n] == t0.parents@[n]
                    &&& t1.root_node == t0.root_node
                },
                None => {
                    let t0 = old(widget_context).new_tree;
                    let t1 = final(widget_context).new_tree;
                    &&& t1.parents@ == t0.parents@
                    &&& t1.children@ == t0.children@
                    &&& t1.root_node == (if self.view().len() > 0 {
                        Some(WrappedIndex(self.view().last()))
                    } else {
                        t0.root_node
                    })
                },
            },
    {
        let ghost t0 = widget_context.new_tree;
        let ghost kids = self.view().map_values(|c: u64| WrappedIndex(c));
        let mut i: usize = 0;
        while i < self.inner.len()
            invariant
                i <= self.inner@.len(),
                self.inner@ == self.view(),
                kids == self.view().map_values(|c: u64| WrappedIndex(c)),
                forall|j: int| 0 <= j < self.view().len() ==> Some(#[trigger] self.view()[j]) != parent_id,
                widget_context.old_tree == old(widget_context).old_tree,
                widget_context.order_tree == old(widget_context).order_tree,
                widget_context.index == old(widget_context).index,
                t0 == old(widget_context).new_tree,
                match parent_id {
                    Some(p) => {
                        let t1 = widget_context.new_tree;
                        &&& t1.kids(p) == t0.kids(p) + kids.take(i as int)
                        &&& forall|k: u64| k != p ==> #[trigger] t1.kids(k) == t0.kids(k)
                        &&& forall|n: u64| #[trigger] t1.parents@.contains_key(n) <==> (t0.parents@.contains_key(n)
                            || self.view().take(i as int).contains(n))
                        &&& forall|n: u64| #[trigger] self.view().take(i as int).contains(n) ==> t1.parents@[n]
                            == WrappedIndex(p)
                        &&& forall|n: u64| t0.parents@.contains_key(n) && !self.view().take(i as int).contains(n)
                            ==> #[trigger] t1.parents@[n] == t0.parents@[n]
                        &&& t1.root_node == t0.root_node
                    },
                    None => {
                        let t1 = widget_context.new_tree;
                        &&& t1.parents@ == t0.parents@
                        &&& t1.children@ == t0.children@
                        &&& t1.root_node == (if i > 0 {
                            Some(WrappedIndex(self.view()[i - 1]))
                        } else {
                            t0.root_node
                        })
                    },
                },
            decreases self.inner@.len() - i,
        {
            let child = self.inner[i];
            assert(Some(self.view()[i as int]) != parent_id);
            widget_context.add_widget(parent_id, child);
            proof {
                let v = self.view();
                assert(v.take(i + 1) =~= v.take(i as int).push(child));
                assert(kids.take(i + 1) =~= kids.take(i as int).push(WrappedIndex(child)));
                assert forall|n: u64| #[trigger] v.take(i + 1).contains(n) <==> (v.take(i as int).contains(n) || n == child) by {
                    if v.take(i + 1).contains(n) {
                        let j = choose|j: int| 0 <= j < v.take(i + 1).len() && #[trigger] v.take(i + 1)[j] == n;
                        if j < i {
                            assert(v.take(i as int)[j] == n);
                        }
                    }
                    if v.take(i as int).contains(n) {
                        let j = choose|j: int| 0 <= j < v.take(i as int).len() && #[trigger] v.take(i as int)[j] == n;
                        assert(v.take(i + 1)[j] == n);
                    }
                    if n == child {
                        assert(v.take(i + 1)[i as int] == n);
                    }
                }
            }
            i += 1;
        }
        proof {
            assert(self.view().take(self.view().len() as int) =~= self.view());
            assert(kids.take(kids.len() as int) =~= kids);
        }
    }
}

} // verus!
