//! Tickets that order synchronized work across logical threads.
//!
//! A leader hands out tickets in increasing order as it does its work; a
//! follower receives them and runs its own work in ticket order, whatever
//! order the work arrives in. The follower's bookkeeping is a queue that holds
//! the current ticket and, for each ticket whose turn has not come, the handle
//! of the task waiting for it.

use vstd::prelude::*;

use crate::common::keyed::{
    distinct_keys, has_key, keyed_map, lemma_entry_in_map, lemma_map_after_push,
    lemma_map_after_remove, lemma_map_after_replace,
};

verus! {

/// A position in the order of synchronized work.
#[derive(Debug, Clone, Copy, PartialEq, Eq, Structural, Hash)]
pub struct Ticket(pub u64);

/// The ticket after `t`; the count starts over at zero after `u64::MAX`.
pub open spec fn next_ticket(t: u64) -> u64 {
    if t == u64::MAX {
        0
    } else {
        (t + 1) as u64
    }
}

/// The ticket reached from the first one after `k` steps.
pub open spec fn ticket_after(k: nat) -> u64
    decreases k,
{
    if k == 0 {
        0
    } else {
        next_ticket(ticket_after((k - 1) as nat))
    }
}

/// Counting from the first ticket, the `k`-th step reaches ticket `k`, for
/// every `k` up to `u64::MAX`: the leader's `k`-th ticket and the follower's
/// `k`-th turn are the same.
pub proof fn lemma_ticket_after(k: nat)
    requires
        k <= u64::MAX,
    ensures
        ticket_after(k) == k,
    decreases k,
{
    if k > 0 {
        lemma_ticket_after((k - 1) as nat);
    }
}

impl View for Ticket {
    type V = u64;

    open spec fn view(&self) -> u64 {
        self.0
    }
}

impl Default for Ticket {
    fn default() -> (r: Self)
        ensures
            r.0 == 0,
    {
        Ticket(0)
    }
}

impl Ticket {
    /// Returns the first ticket.
    pub fn new() -> (r: Self)
        ensures
            r.0 == 0,
    {
        Ticket(0)
    }

    /// Moves the ticket on to the next one, returning the ticket it held.
    pub fn increment_in_place(&mut self) -> (prev: Ticket)
        ensures
            prev == *old(self),
            final(self).0 == next_ticket(old(self).0),
    {
        let prev = *self;
        if self.0 == u64::MAX {
            self.0 = 0;
        } else {
            self.0 = self.0 + 1;
        }
        prev
    }
}

/// A follower's queue: the ticket whose turn it is, and the handles of the
/// tasks that wait for later tickets.
pub struct TicketQueue<W> {
    tick: Ticket,
    waiting: Vec<(Ticket, W)>,
}

impl<W> TicketQueue<W> {
    #[verifier::type_invariant]
    spec fn inv(self) -> bool {
        distinct_keys(self.waiting@)
    }

    /// The ticket whose turn it is.
    pub closed spec fn current(&self) -> u64 {
        self.tick.0
    }

    /// The handle waiting for each ticket.
    pub closed spec fn waiting(&self) -> Map<u64, W> {
        keyed_map(self.waiting@)
    }

    /// Creates a queue at the first ticket, with nothing waiting.
    pub fn new() -> (r: Self)
        ensures
            r.current() == 0,
            r.waiting() == Map::<u64, W>::empty(),
    {
        let r = TicketQueue { tick: Ticket(0), waiting: Vec::new() };
        assert(keyed_map(r.waiting@) =~= Map::<u64, W>::empty());
        r
    }

    /// Returns the ticket whose turn it is.
    pub fn tick(&self) -> (r: Ticket)
        ensures
            r.0 == self.current(),
    {
        self.tick
    }

    /// Whether it is the turn of `ticket`.
    pub fn is_turn(&self, ticket: Ticket) -> (r: bool)
        ensures
            r <==> ticket.0 == self.current(),
    {
        self.tick.0 == ticket.0
    }

    /// Returns the index of the entry waiting for ticket `t`, if any.
    fn find(&self, t: u64) -> (r: Option<usize>)
        ensures
            match r {
                Some(i) => i < self.waiting@.len() && self.waiting@[i as int].0@ == t,
                None => !has_key(self.waiting@, t),
            },
    {
        let mut i: usize = 0;
        while i < self.waiting.len()
            invariant
                i <= self.waiting@.len(),
                forall|j: int| 0 <= j < i ==> (#[trigger] self.waiting@[j]).0@ != t,
            decreases self.waiting@.len() - i,
        {
            if self.waiting[i].0.0 == t {
                return Some(i);
            }
            i = i + 1;
        }
        None
    }

    /// Registers `waker` as the handle waiting for `ticket`, returning the
    /// handle that waited for it before, if any.
    pub fn insert_waiting(&mut self, ticket: Ticket, waker: W) -> (r: Option<W>)
        ensures
            final(self).current() == old(self).current(),
            final(self).waiting() == old(self).waiting().insert(ticket.0, waker),
            r == old(self).waiting().get(ticket.0),
    {
        proof {
            use_type_invariant(&*self);
        }
        let found = self.find(ticket.0);
        let mut waiting: Vec<(Ticket, W)> = Vec::new();
        std::mem::swap(&mut waiting, &mut self.waiting);
        let ghost s = waiting@;
        match found {
            Some(i) => {
                let (_, prev) = waiting.remove(i);
                proof {
                    lemma_entry_in_map(s, i as int);
                    lemma_map_after_replace(s, i as int, ticket, waker);
                }
                waiting.push((ticket, waker));
                self.waiting = waiting;
                Some(prev)
            },
            None => {
                proof {
                    lemma_map_after_push(s, ticket, waker);
                }
                waiting.push((ticket, waker));
                self.waiting = waiting;
                None
            },
        }
    }

    /// Moves on to the next ticket, removing and returning the handle that
    /// waits for it, if any.
    pub fn advance(&mut self) -> (r: Option<W>)
        ensures
            final(self).current() == next_ticket(old(self).current()),
            final(self).waiting() == old(self).waiting().remove(next_ticket(old(self).current())),
            r == old(self).waiting().get(next_ticket(old(self).current())),
    {
        proof {
            use_type_invariant(&*self);
        }
        let mut tick = self.tick;
        tick.increment_in_place();
        self.tick = tick;
        let t = tick.0;
        let found = self.find(t);
        match found {
            Some(i) => {
                let mut waiting: Vec<(Ticket, W)> = Vec::new();
                std::mem::swap(&mut waiting, &mut self.waiting);
                let ghost s = waiting@;
                let (_, woken) = waiting.remove(i);
                proof {
                    lemma_entry_in_map(s, i as int);
                    lemma_map_after_remove(s, i as int);
                }
                self.waiting = waiting;
                Some(woken)
            },
            None => {
                assert(keyed_map(self.waiting@).remove(t) =~= keyed_map(self.waiting@));
                None
            },
        }
    }
}

} // verus!
