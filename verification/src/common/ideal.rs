//! The meeting point of the two parties of an ideal functionality.
//!
//! Each party calls the functionality from one of its logical threads; the
//! call that comes first waits, keyed by the thread's ID, until the other
//! party calls from the thread with the same ID, which takes it and completes
//! both.

use vstd::prelude::*;

use crate::common::id::ThreadId;
use crate::common::keyed::{
    distinct_keys, has_key, keyed_map, lemma_entry_in_map, lemma_map_after_push,
    lemma_map_after_remove, lemma_map_after_replace,
};

verus! {

/// Whether two thread IDs are the same.
fn same_id(a: &ThreadId, b: &ThreadId) -> (r: bool)
    ensures
        r <==> a@ == b@,
{
    let x = a.as_bytes();
    let y = b.as_bytes();
    if x.len() != y.len() {
        return false;
    }
    let mut i: usize = 0;
    while i < x.len()
        invariant
            x@ == a@,
            y@ == b@,
            x@.len() == y@.len(),
            i <= x@.len(),
            forall|j: int| 0 <= j < i ==> x@[j] == y@[j],
        decreases x@.len() - i,
    {
        if x[i] != y[i] {
            return false;
        }
        i = i + 1;
    }
    assert(x@ =~= y@);
    true
}

/// The calls of one party that wait for the other party, each under the ID of
/// the thread it was made from.
#[derive(Debug)]
pub struct PendingCalls<T> {
    entries: Vec<(ThreadId, T)>,
}

impl<T> PendingCalls<T> {
    #[verifier::type_invariant]
    spec fn inv(self) -> bool {
        distinct_keys(self.entries@)
    }

    /// The waiting call of each thread ID.
    pub closed spec fn pending(&self) -> Map<Seq<u8>, T> {
        keyed_map(self.entries@)
    }

    /// Creates an empty set of waiting calls.
    pub fn new() -> (r: Self)
        ensures
            r.pending() == Map::<Seq<u8>, T>::empty(),
    {
        let r = PendingCalls { entries: Vec::new() };
        assert(keyed_map(r.entries@) =~= Map::<Seq<u8>, T>::empty());
        r
    }

    /// Returns the index of the entry of thread `id`, if any.
    fn find(&self, id: &ThreadId) -> (r: Option<usize>)
        ensures
            match r {
                Some(i) => i < self.entries@.len() && self.entries@[i as int].0@ == id@,
                None => !has_key(self.entries@, id@),
            },
    {
        let mut i: usize = 0;
        while i < self.entries.len()
            invariant
                i <= self.entries@.len(),
                forall|j: int| 0 <= j < i ==> (#[trigger] self.entries@[j]).0@ != id@,
            decreases self.entries@.len() - i,
        {
            if same_id(&self.entries[i].0, id) {
                return Some(i);
            }
            i = i + 1;
        }
        None
    }

    /// Removes and returns the call waiting under `id`, if any.
    pub fn take(&mut self, id: &ThreadId) -> (r: Option<T>)
        ensures
            final(self).pending() == old(self).pending().remove(id@),
            r == old(self).pending().get(id@),
    {
        proof {
            use_type_invariant(&*self);
        }
        match self.find(id) {
            Some(i) => {
                let mut entries: Vec<(ThreadId, T)> = Vec::new();
                std::mem::swap(&mut entries, &mut self.entries);
                let ghost s = entries@;
                let (_, call) = entries.remove(i);
                proof {
                    lemma_entry_in_map(s, i as int);
                    lemma_map_after_remove(s, i as int);
                }
                self.entries = entries;
                Some(call)
            },
            None => {
                assert(keyed_map(self.entries@).remove(id@) =~= keyed_map(self.entries@));
                None
            },
        }
    }

    /// Makes `call` the call waiting under `id`, returning the call that
    /// waited there before, if any.
    pub fn insert(&mut self, id: ThreadId, call: T) -> (r: Option<T>)
        ensures
            final(self).pending() == old(self).pending().insert(id@, call),
            r == old(self).pending().get(id@),
    {
        proof {
            use_type_invariant(&*self);
        }
        let found = self.find(&id);
        let mut entries: Vec<(ThreadId, T)> = Vec::new();
        std::mem::swap(&mut entries, &mut self.entries);
        let ghost s = entries@;
        match found {
            Some(i) => {
                let (_, prev) = entries.remove(i);
                proof {
                    lemma_entry_in_map(s, i as int);
                    lemma_map_after_replace(s, i as int, id, call);
                }
                entries.push((id, call));
                self.entries = entries;
                Some(prev)
            },
            None => {
                proof {
                    lemma_map_after_push(s, id, call);
                }
                entries.push((id, call));
                self.entries = entries;
                None
            },
        }
    }
}

} // verus!
