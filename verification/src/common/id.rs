//! Logical thread identifiers and counters.

use vstd::prelude::*;

verus! {

/// A logical thread identifier.
///
/// Every thread is assigned a unique identifier, which can be forked to create
/// a child thread. An identifier is a non-empty sequence of bytes: the
/// identifier of a child is that of its parent followed by one more byte.
#[derive(Debug, PartialEq, Eq, PartialOrd, Ord, Hash)]
pub struct ThreadId {
    bytes: Vec<u8>,
}

impl View for ThreadId {
    type V = Seq<u8>;

    closed spec fn view(&self) -> Seq<u8> {
        self.bytes@
    }
}

impl ThreadId {
    #[verifier::type_invariant]
    spec fn inv(self) -> bool {
        self.bytes@.len() > 0
    }

    /// Creates a new thread ID with the provided ID.
    pub fn new(id: u8) -> (r: Self)
        ensures
            r@ == seq![id],
    {
        ThreadId { bytes: vec![id] }
    }

    /// Returns the thread ID as a byte slice.
    pub fn as_bytes(&self) -> (r: &[u8])
        ensures
            r@ == self@,
            r@.len() > 0,
    {
        proof {
            use_type_invariant(self);
        }
        self.bytes.as_slice()
    }

    /// Increments the thread ID, returning `None` if the ID overflows.
    ///
    /// The last byte is incremented; the bytes before it are kept.
    pub fn increment(&self) -> (r: Option<Self>)
        ensures
            match r {
                Some(id) => {
                    &&& self@.last() < u8::MAX
                    &&& id@ == self@.drop_last().push((self@.last() + 1) as u8)
                },
                None => self@.last() == u8::MAX,
            },
    {
        proof {
            use_type_invariant(self);
        }
        let mut id = self.clone();
        if id.increment_in_place() {
            Some(id)
        } else {
            None
        }
    }

    /// Increments the thread ID in place, returning `false`, and leaving the
    /// ID unchanged, if the ID overflows.
    pub fn increment_in_place(&mut self) -> (r: bool)
        ensures
            r <==> old(self)@.last() < u8::MAX,
            r ==> final(self)@ == old(self)@.drop_last().push((old(self)@.last() + 1) as u8),
            !r ==> final(self)@ == old(self)@,
    {
        proof {
            use_type_invariant(&*self);
        }
        let last = self.bytes.len() - 1;
        let b = self.bytes[last];
        if b == u8::MAX {
            false
        } else {
            let mut bytes = self.bytes.clone();
            bytes.set(last, b + 1);
            proof {
                assert(bytes@ =~= self.bytes@.drop_last().push((b + 1) as u8));
            }
            self.bytes = bytes;
            true
        }
    }

    /// Forks the thread ID: the child's ID is this ID followed by a zero byte.
    pub fn fork(&self) -> (r: Self)
        ensures
            r@ == self@.push(0),
    {
        let mut bytes = self.bytes.clone();
        proof {
            assert(bytes@ =~= self.bytes@);
        }
        bytes.push(0);
        ThreadId { bytes }
    }
}

impl Clone for ThreadId {
    fn clone(&self) -> (r: Self)
        ensures
            r@ == self@,
    {
        proof {
            use_type_invariant(self);
        }
        let bytes = self.bytes.clone();
        proof {
            assert(bytes@ =~= self.bytes@);
        }
        ThreadId { bytes }
    }
}

impl Default for ThreadId {
    fn default() -> (r: Self)
        ensures
            r@ == seq![0u8],
    {
        ThreadId { bytes: vec![0] }
    }
}

/// A child's identifier differs from its parent's and from the identifier of
/// every child of another parent: identifiers handed out by forking are unique.
pub proof fn lemma_fork_unique(a: Seq<u8>, b: Seq<u8>)
    ensures
        a.push(0) != a,
        a != b ==> a.push(0) != b.push(0),
        a.push(0).drop_last() == a,
{
    assert(a.push(0).len() != a.len());
    if a != b && a.push(0) == b.push(0) {
        assert(a =~= a.push(0).drop_last());
        assert(b =~= b.push(0).drop_last());
    }
    assert(a.push(0).drop_last() =~= a);
}

/// Incrementing never yields the identifier it started from, and two
/// identifiers that increment to the same identifier are equal.
pub proof fn lemma_increment_unique(a: Seq<u8>, b: Seq<u8>)
    requires
        a.len() > 0,
        b.len() > 0,
        a.last() < u8::MAX,
        b.last() < u8::MAX,
    ensures
        a.drop_last().push((a.last() + 1) as u8) != a,
        a.drop_last().push((a.last() + 1) as u8) == b.drop_last().push((b.last() + 1) as u8)
            ==> a == b,
{
    let ia = a.drop_last().push((a.last() + 1) as u8);
    let ib = b.drop_last().push((b.last() + 1) as u8);
    assert(ia.last() != a.last());
    if ia == ib {
        assert(ia.drop_last() =~= a.drop_last());
        assert(ib.drop_last() =~= b.drop_last());
        assert(a =~= a.drop_last().push(a.last()));
        assert(b =~= b.drop_last().push(b.last()));
    }
}

/// A simple counter.
#[derive(Debug, Default, Clone, Copy, PartialEq, Eq, PartialOrd, Ord, Hash)]
pub struct Counter(u32);

impl Counter {
    /// The value of the counter.
    pub closed spec fn value(self) -> u32 {
        self.0
    }

    /// Increments the counter in place, returning the previous value.
    pub fn next(&mut self) -> (r: Self)
        requires
            old(self).value() < u32::MAX,
        ensures
            r == *old(self),
            final(self).value() == old(self).value() + 1,
    {
        let prev = self.0;
        self.0 = self.0 + 1;
        Counter(prev)
    }

    /// Returns the next value without incrementing the counter.
    pub fn peek(&self) -> (r: Self)
        requires
            self.value() < u32::MAX,
        ensures
            r.value() == self.value() + 1,
    {
        Counter(self.0 + 1)
    }

    /// Returns the value of the counter in decimal.
    pub fn to_string(&self) -> (r: String)
        ensures
            r@ == crate::text::decimal(self.value() as nat),
    {
        crate::text::decimal_text(self.0 as usize)
    }

    /// Returns the value of the counter as a number.
    pub fn get(&self) -> (r: u32)
        ensures
            r == self.value(),
    {
        self.0
    }
}

} // verus!
