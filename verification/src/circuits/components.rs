//! Circuit components: nodes, gates and the registers of an evaluation.

use std::marker::PhantomData;
use vstd::prelude::*;

use crate::memory::{Memory, MemoryMut};

verus! {

/// A feed in a circuit: a node that a gate or an input writes.
#[derive(Debug, Clone, Copy, Hash, Eq, PartialEq, Structural)]
pub struct Feed;

/// A sink in a circuit: a node that a gate reads.
#[derive(Debug, Clone, Copy, Hash, Eq, PartialEq, Structural)]
pub struct Sink;

/// A node in a circuit.
#[derive(Debug, Copy, Hash, Eq, PartialEq)]
pub struct Node<T> {
    id: usize,
    _pd: PhantomData<T>,
}

impl<T> Clone for Node<T> {
    fn clone(&self) -> (r: Self)
        ensures
            r == *self,
    {
        proof {
            Node::<T>::lemma_index(self.id);
        }
        Node { id: self.id, _pd: PhantomData }
    }
}

impl<T> Node<T> {
    /// The id of the node.
    pub closed spec fn index(self) -> usize {
        self.id
    }

    /// The node with the given id.
    pub closed spec fn with_index(id: usize) -> Self {
        Node { id, _pd: PhantomData }
    }

    /// Nodes are their ids.
    pub proof fn lemma_index(id: usize)
        ensures
            Self::with_index(id).index() == id,
            forall|n: Self| #[trigger] Self::with_index(n.index()) == n,
    {
        assert forall|n: Self| #[trigger] Self::with_index(n.index()) == n by {
            assert(n._pd == PhantomData::<T>);
        }
    }

    /// Creates a node with the given id.
    pub fn new(id: usize) -> (r: Self)
        ensures
            r == Self::with_index(id),
            r.index() == id,
    {
        Node { id, _pd: PhantomData }
    }

    /// Returns the id of the node.
    pub fn id(&self) -> (r: usize)
        ensures
            r == self.index(),
    {
        self.id
    }

    /// Shifts the node ID down by the given offset.
    pub fn shift_left(&mut self, offset: usize)
        requires
            old(self).index() >= offset,
        ensures
            final(self).index() == old(self).index() - offset,
    {
        self.id = self.id - offset;
    }
}

impl From<Node<Feed>> for Node<Sink> {
    fn from(node: Node<Feed>) -> (r: Self)
        ensures
            r.index() == node.index(),
    {
        Node { id: node.id, _pd: PhantomData }
    }
}

impl vstd::std_specs::convert::FromSpecImpl<Node<Feed>> for Node<Sink> {
    open spec fn obeys_from_spec() -> bool {
        true
    }

    open spec fn from_spec(node: Node<Feed>) -> Node<Sink> {
        Node::<Sink>::with_index(node.index())
    }
}

impl From<Node<Sink>> for Node<Feed> {
    fn from(node: Node<Sink>) -> (r: Self)
        ensures
            r.index() == node.index(),
    {
        Node { id: node.id, _pd: PhantomData }
    }
}

impl vstd::std_specs::convert::FromSpecImpl<Node<Sink>> for Node<Feed> {
    open spec fn obeys_from_spec() -> bool {
        true
    }

    open spec fn from_spec(node: Node<Sink>) -> Node<Feed> {
        Node::<Feed>::with_index(node.index())
    }
}

/// Registers used in a circuit evaluation: one value per feed.
#[derive(Debug)]
pub struct Registers<T>(Vec<T>);

impl<T> View for Registers<T> {
    type V = Seq<T>;

    closed spec fn view(&self) -> Seq<T> {
        self.0@
    }
}

impl Registers<bool> {
    /// Creates a new set of `count` registers, all clear.
    pub fn new(count: usize) -> (r: Self)
        ensures
            r@ == Seq::new(count as nat, |i: int| false),
    {
        let mut v: Vec<bool> = Vec::new();
        let mut i: usize = 0;
        while i < count
            invariant
                i <= count,
                v@ == Seq::new(i as nat, |j: int| false),
            decreases count - i,
        {
            v.push(false);
            i = i + 1;
            assert(v@ =~= Seq::new(i as nat, |j: int| false));
        }
        Registers(v)
    }

    /// Returns the value of the register of a node.
    pub fn read<U>(&self, node: Node<U>) -> (r: bool)
        requires
            node.index() < self@.len(),
        ensures
            r == self@[node.index() as int],
    {
        self.0[node.id]
    }

    /// Sets the register of a feed.
    pub fn write(&mut self, node: Node<Feed>, value: bool)
        requires
            node.index() < old(self)@.len(),
        ensures
            final(self)@ == old(self)@.update(node.index() as int, value),
    {
        vstd::pervasive::VecAdditionalExecFns::set(&mut self.0, node.id, value);
    }
}

/// The registers are as many as the ids under which they hold something.
pub proof fn lemma_registers_len(r: &Registers<bool>, n: usize)
    requires
        forall|k: usize| (#[trigger] r.slot(Node::<Feed>::with_index(k))) is Some <==> k < n,
    ensures
        r@.len() == n,
{
    Node::<Feed>::lemma_index(n);
    if r@.len() > n {
        assert(r.slot(Node::<Feed>::with_index(n)) is Some);
    } else if r@.len() < n {
        let k = r@.len() as usize;
        Node::<Feed>::lemma_index(k);
        assert(r.slot(Node::<Feed>::with_index(k)) is None);
    }
}

impl<T> Memory<T> for Registers<T> {
    type Id = Node<Feed>;

    open spec fn slot(&self, id: Node<Feed>) -> Option<T> {
        if id.index() < self@.len() {
            Some(self@[id.index() as int])
        } else {
            None
        }
    }

    fn get(&self, id: &Node<Feed>) -> (r: Option<&T>) {
        if id.id < self.0.len() {
            Some(&self.0[id.id])
        } else {
            None
        }
    }

    fn allocate(&mut self, value: T) -> (id: Node<Feed>) {
        let id = Node::new(self.0.len());
        self.0.push(value);
        proof {
            assert forall|j: Node<Feed>| j != id implies #[trigger] self.slot(j) == old(self).slot(j) by {
                Node::<Feed>::lemma_index(j.index());
                if j.index() == id.index() {
                    assert(j == Node::<Feed>::with_index(j.index()));
                }
            }
        }
        id
    }
}

impl<T> MemoryMut<T> for Registers<T> {
    fn set(&mut self, id: &Node<Feed>, value: T) {
        vstd::pervasive::VecAdditionalExecFns::set(&mut self.0, id.id, value);
        proof {
            assert forall|j: Node<Feed>| j != *id implies #[trigger] self.slot(j) == old(self).slot(j) by {
                Node::<Feed>::lemma_index(j.index());
                Node::<Feed>::lemma_index(id.index());
                if j.index() == id.index() {
                    assert(j == Node::<Feed>::with_index(j.index()));
                    assert(*id == Node::<Feed>::with_index(id.index()));
                }
            }
        }
    }
}

impl Node<Feed> {
    /// Returns the text the node is displayed as: `Feed(id)`.
    pub fn to_string(&self) -> (r: String)
        ensures
            r@ == "Feed"@ + seq!['('] + crate::text::decimal(self.index() as nat) + seq![')'],
    {
        crate::text::call_text("Feed", self.id)
    }
}

impl Node<Sink> {
    /// Returns the text the node is displayed as: `Sink(id)`.
    pub fn to_string(&self) -> (r: String)
        ensures
            r@ == "Sink"@ + seq!['('] + crate::text::decimal(self.index() as nat) + seq![')'],
    {
        crate::text::call_text("Sink", self.id)
    }
}

} // verus!
