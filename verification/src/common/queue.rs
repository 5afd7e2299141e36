//! Task queues: tasks are dealt out to lanes and their results gathered back.
//!
//! Running a task is the caller's affair; these queues decide which lane runs
//! which task, and in which order the results are handed back.

use std::collections::VecDeque;
use vstd::arithmetic::div_mod::{lemma_fundamental_div_mod, lemma_fundamental_div_mod_converse};
use vstd::prelude::*;

verus! {

/// How many of `n` tasks dealt round-robin over `k` lanes land in lane `l`.
pub open spec fn lane_len(n: nat, k: nat, l: nat) -> nat
    recommends
        k > 0,
{
    n / k + if l < n % k { 1nat } else { 0nat }
}

/// The lanes that dealing `tasks` round-robin over `k` lanes gives: task `i`
/// goes to lane `i % k`, as that lane's `i / k`-th task.
pub open spec fn dealt<T>(tasks: Seq<T>, k: nat) -> Seq<Seq<T>> {
    Seq::new(k, |l: int| Seq::new(lane_len(tasks.len(), k, l as nat), |j: int| tasks[j * k + l]))
}

/// Gathering results lane by lane, round-robin, has reached position `i`
/// (lane `i % k`, that lane's `i / k`-th result) and found nothing there.
pub open spec fn exhausted_at<R>(lanes: Seq<Seq<R>>, i: nat) -> bool
    recommends
        lanes.len() > 0,
{
    i / lanes.len() >= lanes[(i % lanes.len()) as int].len()
}

/// `m` is where gathering round-robin stops: the first exhausted position.
pub open spec fn stops_at<R>(lanes: Seq<Seq<R>>, m: nat) -> bool {
    &&& exhausted_at(lanes, m)
    &&& forall|i: nat| i < m ==> !#[trigger] exhausted_at(lanes, i)
}

/// The results gathered round-robin from `lanes`, stopping at the first
/// exhausted position `m`.
pub open spec fn gathered<R>(lanes: Seq<Seq<R>>, m: nat) -> Seq<R> {
    Seq::new(m, |i: int| lanes[i % lanes.len() as int][i / lanes.len() as int])
}

/// Deals `tasks` round-robin over `lane_count` lanes: task `i` becomes the
/// `i / lane_count`-th task of lane `i % lane_count`.
pub fn distribute<T>(tasks: Vec<T>, lane_count: usize) -> (lanes: Vec<Vec<T>>)
    requires
        lane_count > 0 || tasks@.len() == 0,
    ensures
        lanes@.len() == lane_count,
        forall|l: int| 0 <= l < lane_count ==> #[trigger] lanes@[l]@ == dealt(tasks@, lane_count as nat)[l],
{
    let ghost orig = tasks@;
    let ghost k = lane_count as nat;
    let n = tasks.len();
    let mut lanes: Vec<Vec<T>> = Vec::new();
    let mut c: usize = 0;
    while c < lane_count
        invariant
            c <= lane_count,
            lanes@.len() == c,
            forall|l: int| 0 <= l < c ==> (#[trigger] lanes@[l])@.len() == 0,
        decreases lane_count - c,
    {
        lanes.push(Vec::new());
        c = c + 1;
    }
    if lane_count == 0 {
        assert(lanes@.len() == 0);
        return lanes;
    }
    // Reverse the tasks, so that popping yields them first to last.
    let mut tasks = tasks;
    let mut rev: Vec<T> = Vec::new();
    while tasks.len() > 0
        invariant
            tasks@ == orig.subrange(0, tasks@.len() as int),
            rev@.len() + tasks@.len() == orig.len(),
            forall|j: int| 0 <= j < rev@.len() ==> rev@[j] == orig[orig.len() - 1 - j],
        decreases tasks.len(),
    {
        let t = tasks.pop().unwrap();
        rev.push(t);
    }
    let mut i: usize = 0;
    while rev.len() > 0
        invariant
            k == lane_count,
            k > 0,
            n == orig.len(),
            i + rev@.len() == orig.len(),
            forall|j: int| 0 <= j < rev@.len() ==> rev@[j] == orig[orig.len() - 1 - j],
            lanes@.len() == k,
            forall|l: int|
                0 <= l < k ==> (#[trigger] lanes@[l])@ == Seq::new(
                    lane_len(i as nat, k, l as nat),
                    |j: int| orig[j * k + l],
                ),
        decreases rev.len(),
    {
        let t = rev.pop().unwrap();
        let l = i % lane_count;
        proof {
            lemma_lane_step(i as nat, k);
        }
        let ghost before = lanes@;
        lanes[l].push(t);
        proof {
            assert forall|m: int| 0 <= m < k implies (#[trigger] lanes@[m])@ == Seq::new(
                lane_len((i + 1) as nat, k, m as nat),
                |j: int| orig[j * k + m],
            ) by {
                if m == l {
                    assert(lanes@[m]@ =~= Seq::new(
                        lane_len((i + 1) as nat, k, m as nat),
                        |j: int| orig[j * k + m],
                    ));
                } else {
                    assert(lanes@[m] == before[m]);
                }
            }
        }
        i = i + 1;
    }
    proof {
        assert forall|l: int| 0 <= l < lane_count implies #[trigger] lanes@[l]@ == dealt(
            orig,
            k,
        )[l] by {
            assert(lanes@[l]@ =~= dealt(orig, k)[l]);
        }
    }
    lanes
}

/// Division and remainder of a successor.
proof fn lemma_div_mod_succ(i: nat, k: nat)
    requires
        k > 0,
    ensures
        (i / k) * k + i % k == i,
        i % k < k,
        i % k + 1 < k ==> (i + 1) / k == i / k && (i + 1) % k == i % k + 1,
        i % k + 1 == k ==> (i + 1) / k == i / k + 1 && (i + 1) % k == 0,
{
    lemma_fundamental_div_mod(i as int, k as int);
    let q = (i / k) as int;
    let r = (i % k) as int;
    assert(q * k == k * q) by (nonlinear_arith);
    if r + 1 < k {
        lemma_fundamental_div_mod_converse((i + 1) as int, k as int, q, r + 1);
    } else {
        assert((q + 1) * k == q * k + k) by (nonlinear_arith);
        lemma_fundamental_div_mod_converse((i + 1) as int, k as int, q + 1, 0);
    }
}

/// Dealing task `i` adds one task to lane `i % k`, at position `i / k`, and
/// none to the others.
proof fn lemma_lane_step(i: nat, k: nat)
    requires
        k > 0,
    ensures
        forall|l: nat|
            l < k ==> #[trigger] lane_len(i + 1, k, l) == lane_len(i, k, l) + if l == i % k {
                1nat
            } else {
                0nat
            },
        lane_len(i, k, i % k) == i / k,
        (i / k) * k + i % k == i,
{
    lemma_div_mod_succ(i, k);
}

/// A position within the first `max + 1` rounds of `k` lanes.
proof fn lemma_round_bound(idx: nat, k: nat, max: nat)
    requires
        k > 0,
        idx / k + 1 <= max,
    ensures
        idx + 1 <= k * (max + 1),
{
    lemma_div_mod_succ(idx, k);
    let c = idx / k;
    assert((c + 1) * k == c * k + k) by (nonlinear_arith);
    assert((c + 1) * k <= max * k) by (nonlinear_arith)
        requires
            c + 1 <= max,
            k > 0,
    ;
    assert(max * k <= k * (max + 1)) by (nonlinear_arith);
}

/// The contents of a vector of lanes.
pub open spec fn lanes_view<R>(lanes: Seq<Vec<R>>) -> Seq<Seq<R>> {
    lanes.map_values(|v: Vec<R>| v@)
}

/// The length of the longest lane.
pub open spec fn max_len<R>(lanes: Seq<Seq<R>>) -> nat
    decreases lanes.len(),
{
    if lanes.len() == 0 {
        0
    } else {
        let rest = max_len(lanes.drop_last());
        if lanes.last().len() > rest {
            lanes.last().len()
        } else {
            rest
        }
    }
}

proof fn lemma_max_len<R>(lanes: Seq<Seq<R>>)
    ensures
        forall|l: int| 0 <= l < lanes.len() ==> (#[trigger] lanes[l]).len() <= max_len(lanes),
    decreases lanes.len(),
{
    if lanes.len() > 0 {
        lemma_max_len(lanes.drop_last());
        assert forall|l: int| 0 <= l < lanes.len() implies (#[trigger] lanes[l]).len() <= max_len(
            lanes,
        ) by {
            if l < lanes.len() - 1 {
                assert(lanes[l] == lanes.drop_last()[l]);
            }
        }
    }
}

/// Gathers results from lanes round-robin: the first result of lane 0, the
/// first of lane 1, and so on, then the second of each lane, until the first
/// lane that has no result left.
pub fn interleave<R>(lanes: Vec<Vec<R>>) -> (results: Vec<R>)
    ensures
        lanes@.len() == 0 ==> results@.len() == 0,
        lanes@.len() > 0 ==> stops_at(lanes_view(lanes@), results@.len()),
        lanes@.len() > 0 ==> results@ == gathered(lanes_view(lanes@), results@.len()),
{
    let lane_count = lanes.len();
    let mut results: Vec<R> = Vec::new();
    if lane_count == 0 {
        return results;
    }
    let ghost orig = lanes_view(lanes@);
    let ghost k = lane_count as nat;
    // Reverse each lane so that its first result is popped first.
    let mut lanes = lanes;
    let mut rev_lanes: Vec<Vec<R>> = Vec::new();
    while lanes.len() > 0
        invariant
            orig.len() == k,
            rev_lanes@.len() + lanes@.len() == k,
            forall|l: int| 0 <= l < lanes@.len() ==> (#[trigger] lanes@[l])@ == orig[l],
            forall|l: int|
                0 <= l < rev_lanes@.len() ==> (#[trigger] rev_lanes@[l])@ == orig[k - 1 - l].reverse(),
        decreases lanes.len(),
    {
        let lane = lanes.pop().unwrap();
        let r = reverse_vec(lane);
        rev_lanes.push(r);
    }
    let mut reversed: Vec<Vec<R>> = Vec::new();
    while rev_lanes.len() > 0
        invariant
            rev_lanes@.len() + reversed@.len() == k,
            forall|l: int|
                0 <= l < rev_lanes@.len() ==> (#[trigger] rev_lanes@[l])@ == orig[k - 1 - l].reverse(),
            forall|l: int| 0 <= l < reversed@.len() ==> (#[trigger] reversed@[l])@ == orig[l].reverse(),
        decreases rev_lanes.len(),
    {
        let lane = rev_lanes.pop().unwrap();
        reversed.push(lane);
    }
    proof {
        lemma_max_len(orig);
        assert forall|l: int| 0 <= l < k implies (#[trigger] reversed@[l])@ == orig[l].skip(
            lane_len(0, k, l as nat) as int,
        ).reverse() by {
            assert(orig[l].skip(0) =~= orig[l]);
        }
    }
    let ghost bound = k * (max_len(orig) + 1);
    // Pop results round-robin until a lane runs dry.
    let mut idx: usize = 0;
    let mut lane_idx: usize = 0;
    loop
        invariant_except_break
            k == lane_count,
            k > 0,
            orig.len() == k,
            lane_idx < k,
            reversed@.len() == k,
            lane_idx == idx as nat % k,
            idx <= bound,
            bound == k * (max_len(orig) + 1),
            forall|l: int| 0 <= l < k ==> (#[trigger] orig[l]).len() <= max_len(orig),
            results@ == gathered(orig, idx as nat),
            forall|i: nat| i < idx ==> !#[trigger] exhausted_at(orig, i),
            forall|l: int|
                0 <= l < k ==> (#[trigger] reversed@[l])@ == orig[l].skip(
                    lane_len(idx as nat, k, l as nat) as int,
                ).reverse(),
            forall|l: int| 0 <= l < k ==> lane_len(idx as nat, k, l as nat) <= (#[trigger] orig[l]).len(),
        ensures
            stops_at(orig, results@.len()),
            results@ == gathered(orig, results@.len()),
        decreases bound - idx,
    {
        proof {
            lemma_lane_step(idx as nat, k);
        }
        let ghost before = reversed@;
        match reversed[lane_idx].pop() {
            Some(result) => {
                proof {
                    let c = idx as nat / k;
                    assert(orig[lane_idx as int].len() > c);
                    assert(result == orig[lane_idx as int][c as int]);
                    assert(!exhausted_at(orig, idx as nat));
                    assert(c + 1 <= max_len(orig));
                    lemma_round_bound(idx as nat, k, max_len(orig));
                }
                results.push(result);
                proof {
                    assert(results@ =~= gathered(orig, (idx + 1) as nat));
                    assert forall|l: int| 0 <= l < k implies (#[trigger] reversed@[l])@ == orig[l].skip(
                        lane_len((idx + 1) as nat, k, l as nat) as int,
                    ).reverse() by {
                        if l == lane_idx {
                            assert(reversed@[l]@ =~= orig[l].skip(
                                lane_len((idx + 1) as nat, k, l as nat) as int,
                            ).reverse());
                        } else {
                            assert(reversed@[l] == before[l]);
                        }
                    }
                }
                proof {
                    lemma_div_mod_succ(idx as nat, k);
                }
                idx = results.len();
                lane_idx = if lane_idx + 1 == lane_count { 0 } else { lane_idx + 1 };
            },
            None => {
                proof {
                    assert(orig[lane_idx as int].len() <= idx as nat / k);
                    assert(exhausted_at(orig, idx as nat));
                }
                break ;
            },
        }
    }
    results
}

/// Round-robin dealing and gathering keep the order: whatever each task
/// yields, gathering the lanes' results gives the tasks' results in the order
/// the tasks were pushed, and gathering stops right after the last one.
pub proof fn lemma_round_robin_keeps_order<T, R>(tasks: Seq<T>, k: nat, f: spec_fn(T) -> R)
    requires
        k > 0,
    ensures
        stops_at(dealt(tasks, k).map_values(|lane: Seq<T>| lane.map_values(f)), tasks.len()),
        gathered(dealt(tasks, k).map_values(|lane: Seq<T>| lane.map_values(f)), tasks.len())
            == tasks.map_values(f),
{
    let lanes = dealt(tasks, k).map_values(|lane: Seq<T>| lane.map_values(f));
    let n = tasks.len();
    assert forall|i: nat| i <= n implies (exhausted_at(lanes, i) <==> i == n) by {
        lemma_fundamental_div_mod(i as int, k as int);
        lemma_fundamental_div_mod(n as int, k as int);
        let l = i % k;
        assert(lanes[l as int].len() == lane_len(n, k, l));
        if i < n {
            // i / k <= n / k, and equality forces i % k < n % k.
            assert(i / k <= n / k) by {
                vstd::arithmetic::div_mod::lemma_div_is_ordered(i as int, n as int, k as int);
            }
            if i / k == n / k {
                assert(i % k < n % k);
            }
        }
    }
    assert forall|i: nat| i < n implies !#[trigger] exhausted_at(lanes, i) by {}
    assert forall|i: int| 0 <= i < n implies gathered(lanes, n)[i] == tasks.map_values(f)[i] by {
        lemma_div_mod_succ(i as nat, k);
        let l = i % k as int;
        let j = i / k as int;
        assert(!exhausted_at(lanes, i as nat));
        assert(lanes[l] == dealt(tasks, k)[l].map_values(f));
        assert(dealt(tasks, k)[l][j] == tasks[j * k + l]);
        assert(j * k + l == i);
    }
    assert(gathered(lanes, n) =~= tasks.map_values(f));
}

/// A queue that load balances tasks over lanes in a round-robin fashion.
pub struct RRQueue<'a, L, T> {
    lanes: &'a mut [L],
    queue: VecDeque<T>,
}

impl<'a, L, T> RRQueue<'a, L, T> {
    /// The tasks pushed and not yet scheduled, in the order they were pushed.
    pub closed spec fn pending(&self) -> Seq<T> {
        self.queue@
    }

    /// The number of lanes.
    pub closed spec fn lane_count_spec(&self) -> nat {
        self.lanes@.len()
    }

    /// Creates a new round-robin queue over the given lanes.
    pub fn new(lanes: &'a mut [L]) -> (r: Self)
        ensures
            r.pending().len() == 0,
            r.lane_count_spec() == old(lanes)@.len(),
    {
        RRQueue { lanes, queue: VecDeque::new() }
    }

    /// Pushes a task into the queue.
    pub fn push(&mut self, task: T)
        ensures
            final(self).pending() == old(self).pending().push(task),
            final(self).lane_count_spec() == old(self).lane_count_spec(),
    {
        self.queue.push_back(task);
    }

    /// Returns the number of tasks pending.
    pub fn len(&self) -> (r: usize)
        ensures
            r == self.pending().len(),
    {
        self.queue.len()
    }

    /// Returns the number of lanes.
    pub fn lane_count(&self) -> (r: usize)
        ensures
            r == self.lane_count_spec(),
    {
        self.lanes.len()
    }

    /// Takes every pending task out of the queue and deals them over the lanes:
    /// the `i`-th task pushed becomes the `i / n`-th task of lane `i % n`, for
    /// `n` lanes.
    pub fn schedule(&mut self) -> (r: Vec<Vec<T>>)
        requires
            old(self).lane_count_spec() > 0 || old(self).pending().len() == 0,
        ensures
            final(self).pending().len() == 0,
            final(self).lane_count_spec() == old(self).lane_count_spec(),
            r@.len() == old(self).lane_count_spec(),
            forall|l: int|
                0 <= l < r@.len() ==> #[trigger] r@[l]@ == dealt(
                    old(self).pending(),
                    old(self).lane_count_spec(),
                )[l],
    {
        let mut tasks: Vec<T> = Vec::new();
        let ghost orig = self.queue@;
        while self.queue.len() > 0
            invariant
                tasks@ + self.queue@ == orig,
                self.lanes@.len() == old(self).lanes@.len(),
            decreases self.queue.len(),
        {
            let t = self.queue.pop_front().unwrap();
            proof {
                assert(tasks@.push(t) + self.queue@ =~= orig);
            }
            tasks.push(t);
        }
        assert(tasks@ =~= orig);
        distribute(tasks, self.lanes.len())
    }

    /// Returns the lanes, for running the scheduled tasks on them.
    pub fn lanes_mut(&mut self) -> (r: &mut [L])
        ensures
            r@.len() == old(self).lane_count_spec(),
    {
        &mut *self.lanes
    }
}

/// A queue that executes tasks one at a time in FIFO order.
pub struct SimpleQueue<'a, S, T> {
    state: &'a mut S,
    queue: VecDeque<T>,
}

impl<'a, S, T> SimpleQueue<'a, S, T> {
    /// The tasks pushed and not yet taken, in the order they were pushed.
    pub closed spec fn pending(&self) -> Seq<T> {
        self.queue@
    }

    /// The state the tasks run on.
    pub closed spec fn state(&self) -> S {
        *self.state
    }

    /// Creates a new simple queue over the given state.
    pub fn new(state: &'a mut S) -> (r: Self)
        ensures
            r.pending().len() == 0,
            r.state() == *old(state),
    {
        SimpleQueue { state, queue: VecDeque::new() }
    }

    /// Pushes a task into the queue.
    pub fn push(&mut self, task: T)
        ensures
            final(self).pending() == old(self).pending().push(task),
    {
        self.queue.push_back(task);
    }

    /// Takes the oldest pending task, if any.
    pub fn next_task(&mut self) -> (r: Option<T>)
        ensures
            old(self).pending().len() == 0 ==> r is None && final(self).pending() == old(self).pending(),
            old(self).pending().len() > 0 ==> r == Some(old(self).pending()[0])
                && final(self).pending() == old(self).pending().drop_first(),
    {
        self.queue.pop_front()
    }

    /// Returns the state the tasks run on, to be changed in place.
    pub fn state_mut(&mut self) -> (r: &mut S)
        ensures
            *r == old(self).state(),
            final(self).state() == *final(r),
            final(self).pending() == old(self).pending(),
    {
        &mut *self.state
    }
}

/// Reverses a vector.
fn reverse_vec<R>(v: Vec<R>) -> (r: Vec<R>)
    ensures
        r@ == v@.reverse(),
{
    let mut v = v;
    let ghost orig = v@;
    let mut r: Vec<R> = Vec::new();
    while v.len() > 0
        invariant
            v@ == orig.subrange(0, v@.len() as int),
            r@.len() + v@.len() == orig.len(),
            forall|i: int| 0 <= i < r@.len() ==> r@[i] == orig[orig.len() - 1 - i],
        decreases v.len(),
    {
        let x = v.pop().unwrap();
        r.push(x);
    }
    assert(r@ =~= orig.reverse());
    r
}

} // verus!
