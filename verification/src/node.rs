//! Hierarchy component: the parent and the children of an entity.

use crate::entity::EntityId;
use vstd::prelude::*;

verus! {

/// Mathematical content of a [`Node`].
pub struct NodeView {
    pub parent: Option<EntityId>,
    pub children: Seq<EntityId>,
}

/// Links an entity to its parent and to its children, in the order the
/// children were added.
#[derive(Debug, Clone, PartialEq)]
pub struct Node {
    parent: Option<EntityId>,
    children: Vec<EntityId>,
}

impl View for Node {
    type V = NodeView;

    closed spec fn view(&self) -> NodeView {
        NodeView { parent: self.parent, children: self.children@ }
    }
}

/// The children without any occurrence of `child`, in their order.
pub open spec fn without(children: Seq<EntityId>, child: EntityId) -> Seq<EntityId>
    decreases children.len(),
{
    if children.len() == 0 {
        Seq::empty()
    } else if children.last() == child {
        without(children.drop_last(), child)
    } else {
        without(children.drop_last(), child).push(children.last())
    }
}

/// Removing a child from a list with one more entry keeps that entry unless
/// it is the child.
pub proof fn lemma_without_push(children: Seq<EntityId>, last: EntityId, child: EntityId)
    ensures
        without(children.push(last), child) == if last != child {
            without(children, child).push(last)
        } else {
            without(children, child)
        },
{
    assert(children.push(last).drop_last() == children);
    assert(children.push(last).last() == last);
}

/// After the removal the child is gone and every other child is still
/// there.
pub proof fn lemma_without_contains(children: Seq<EntityId>, child: EntityId, other: EntityId)
    ensures
        without(children, child).contains(other) <==> (children.contains(other) && other != child),
    decreases children.len(),
{
    if children.len() > 0 {
        let front = children.drop_last();
        let last = children.last();
        lemma_without_contains(front, child, other);
        let kept = without(front, child);
        if children.contains(other) {
            let i = choose|i: int| 0 <= i < children.len() && children[i] == other;
            if i < front.len() {
                assert(front[i] == other);
            }
        }
        if front.contains(other) {
            let i = choose|i: int| 0 <= i < front.len() && front[i] == other;
            assert(children[i] == other);
        }
        if last != child {
            let all = kept.push(last);
            if kept.contains(other) {
                let i = choose|i: int| 0 <= i < kept.len() && kept[i] == other;
                assert(all[i] == other);
            }
            if all.contains(other) {
                let i = choose|i: int| 0 <= i < all.len() && all[i] == other;
                if i < kept.len() {
                    assert(kept[i] == other);
                }
            }
            if other == last {
                assert(all[kept.len() as int] == other);
                assert(children[children.len() - 1] == other);
            }
        }
    }
}

impl Node {
    /// A node without parent and without children.
    pub fn new() -> (node: Self)
        ensures
            node@.parent.is_none(),
            node@.children == Seq::<EntityId>::empty(),
    {
        Node { parent: None, children: Vec::new() }
    }

    /// A node below `parent`, without children.
    pub fn from_parent(parent: EntityId) -> (node: Self)
        ensures
            node@.parent == Some(parent),
            node@.children == Seq::<EntityId>::empty(),
    {
        Node { parent: Some(parent), children: Vec::new() }
    }

    /// Adds `child` after the children held so far.
    pub fn add_child(&mut self, child: EntityId)
        ensures
            final(self)@.parent == old(self)@.parent,
            final(self)@.children == old(self)@.children.push(child),
    {
        self.children.push(child);
    }

    /// Removes every occurrence of `child` and keeps the other children in
    /// their order.
    pub fn remove_child(&mut self, child: EntityId)
        ensures
            final(self)@.parent == old(self)@.parent,
            final(self)@.children == without(old(self)@.children, child),
    {
        let mut kept: Vec<EntityId> = Vec::new();
        let mut i: usize = 0;
        while i < self.children.len()
            invariant
                i <= self.children.len(),
                self.children == old(self).children,
                self.parent == old(self).parent,
                kept@ == without(self.children@.take(i as int), child),
            decreases self.children.len() - i,
        {
            let current = self.children[i];
            proof {
                assert(self.children@.take(i + 1) == self.children@.take(i as int).push(current));
                lemma_without_push(self.children@.take(i as int), current, child);
            }
            if current != child {
                kept.push(current);
            }
            i += 1;
        }
        proof {
            assert(self.children@.take(i as int) == self.children@);
        }
        self.children = kept;
    }

    /// The children in the order they were added.
    pub fn children(&self) -> (children: &[EntityId])
        ensures
            children@ == self@.children,
    {
        self.children.as_slice()
    }

    /// The parent, where the node has one.
    pub fn parent(&self) -> (parent: Option<EntityId>)
        ensures
            parent == self@.parent,
    {
        self.parent
    }

    /// Sets or clears the parent and leaves the children alone.
    pub fn set_parent(&mut self, parent: Option<EntityId>)
        ensures
            final(self)@.parent == parent,
            final(self)@.children == old(self)@.children,
    {
        self.parent = parent;
    }
}

} // verus!
