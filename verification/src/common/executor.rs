//! Executors: the state of single- and multi-threaded thread contexts.
//!
//! Opening I/O channels and running futures is left to the caller; these
//! types keep the identifiers and decide which threads to create.

use vstd::prelude::*;

use super::context::{ContextError, ErrorKind};
use super::id::ThreadId;

verus! {

/// The maximum number of child threads of a context.
pub const MAX_THREADS: usize = 255;

/// A single-threaded executor.
pub struct STExecutor<Io> {
    id: ThreadId,
    io: Io,
}

impl<Io> STExecutor<Io> {
    /// The thread ID.
    pub closed spec fn id_spec(&self) -> ThreadId {
        self.id
    }

    /// The thread's I/O channel.
    pub closed spec fn io_spec(&self) -> Io {
        self.io
    }

    /// Creates a new single-threaded executor with the I/O channel it uses.
    pub fn new(io: Io) -> (r: Self)
        ensures
            r.id_spec()@ == seq![0u8],
            r.io_spec() == io,
    {
        STExecutor { id: ThreadId::default(), io }
    }

    /// Returns the thread ID.
    pub fn id(&self) -> (r: &ThreadId)
        ensures
            *r == self.id_spec(),
    {
        &self.id
    }

    /// Returns the maximum degree of concurrency, which is 1.
    pub fn max_concurrency(&self) -> (r: usize)
        ensures
            r == 1,
    {
        1
    }

    /// Returns the thread's I/O channel, to be used in place.
    pub fn io_mut(&mut self) -> (r: &mut Io)
        ensures
            *r == old(self).io_spec(),
            final(self).io_spec() == *final(r),
            final(self).id_spec() == old(self).id_spec(),
    {
        &mut self.io
    }
}

/// A dummy I/O channel.
#[derive(Debug, Default, Clone, Copy)]
pub struct DummyIo;

/// A dummy executor.
#[derive(Debug)]
pub struct DummyExecutor {
    id: ThreadId,
    io: DummyIo,
}

impl DummyExecutor {
    /// The thread ID.
    pub closed spec fn id_spec(&self) -> ThreadId {
        self.id
    }

    /// The dummy I/O channel.
    pub closed spec fn io_spec(&self) -> DummyIo {
        self.io
    }

    /// Creates a dummy executor with the default thread ID.
    pub fn new() -> (r: Self)
        ensures
            r.id_spec()@ == seq![0u8],
    {
        DummyExecutor { id: ThreadId::default(), io: DummyIo }
    }

    /// Returns the thread ID.
    pub fn id(&self) -> (r: &ThreadId)
        ensures
            *r == self.id_spec(),
    {
        &self.id
    }

    /// Returns the dummy I/O channel, to be used in place.
    pub fn io_mut(&mut self) -> (r: &mut DummyIo)
        ensures
            *r == old(self).io_spec(),
            final(self).io_spec() == *final(r),
            final(self).id_spec() == old(self).id_spec(),
    {
        &mut self.io
    }
}

/// A multi-threaded executor.
#[derive(Debug)]
pub struct MTExecutor<M> {
    id: ThreadId,
    mux: M,
    max_concurrency: usize,
}

impl<M> MTExecutor<M> {
    /// The identifier of the last thread created (the executor's own at first).
    pub closed spec fn id_spec(&self) -> ThreadId {
        self.id
    }

    /// The maximum degree of concurrency.
    pub closed spec fn max_concurrency_spec(&self) -> usize {
        self.max_concurrency
    }

    /// The multiplexer.
    pub closed spec fn mux_spec(&self) -> M {
        self.mux
    }

    /// Creates a new multi-threaded executor.
    ///
    /// # Arguments
    ///
    /// * `mux` - The multiplexer used by the executor.
    /// * `max_concurrency` - The max degree of concurrency to use.
    pub fn new(mux: M, max_concurrency: usize) -> (r: Self)
        ensures
            r.id_spec()@ == seq![0u8],
            r.max_concurrency_spec() == max_concurrency,
            r.mux_spec() == mux,
    {
        MTExecutor { id: ThreadId::default(), mux, max_concurrency }
    }

    /// Returns the multiplexer.
    pub fn mux(&self) -> (r: &M)
        ensures
            *r == self.mux_spec(),
    {
        &self.mux
    }

    /// Returns the maximum degree of concurrency.
    pub fn max_concurrency(&self) -> (r: usize)
        ensures
            r == self.max_concurrency_spec(),
    {
        self.max_concurrency
    }

    /// Picks the identifier of a new thread: the last identifier, incremented.
    /// Fails once 255 threads have been created.
    pub fn next_thread_id(&mut self) -> (r: Result<ThreadId, ContextError>)
        ensures
            final(self).max_concurrency_spec() == old(self).max_concurrency_spec(),
            match r {
                Ok(id) => {
                    &&& old(self).id_spec()@.last() < u8::MAX
                    &&& id@ == old(self).id_spec()@.drop_last().push(
                        (old(self).id_spec()@.last() + 1) as u8,
                    )
                    &&& final(self).id_spec()@ == id@
                },
                Err(e) => {
                    &&& old(self).id_spec()@.last() == u8::MAX
                    &&& e.kind_spec() == ErrorKind::Thread
                    &&& final(self).id_spec() == old(self).id_spec()
                },
            },
    {
        let mut id = self.id.clone();
        if id.increment_in_place() {
            self.id = id.clone();
            Ok(id)
        } else {
            Err(ContextError::new(ErrorKind::Thread))
        }
    }
}

/// The child threads of a context, created lazily and kept for reuse.
#[derive(Debug)]
pub struct Children<C> {
    id: ThreadId,
    slots: Vec<C>,
    max_concurrency: usize,
}

impl<C> Children<C> {
    /// The identifier of the last child created (the base identifier at first).
    pub closed spec fn id_spec(&self) -> ThreadId {
        self.id
    }

    /// The children created so far.
    pub closed spec fn slots(&self) -> Seq<C> {
        self.slots@
    }

    /// The maximum degree of concurrency.
    pub closed spec fn max_concurrency_spec(&self) -> usize {
        self.max_concurrency
    }

    /// Creates an empty set of children whose identifiers follow `id`.
    pub fn new(id: ThreadId, max_concurrency: usize) -> (r: Self)
        ensures
            r.id_spec() == id,
            r.slots().len() == 0,
            r.max_concurrency_spec() == max_concurrency,
    {
        Children { id, slots: Vec::new(), max_concurrency }
    }

    /// Returns the maximum degree of concurrency.
    pub fn max_concurrency(&self) -> (r: usize)
        ensures
            r == self.max_concurrency_spec(),
    {
        self.max_concurrency
    }

    /// Returns the identifier of the last child created (the base
    /// identifier at first).
    pub fn id(&self) -> (r: &ThreadId)
        ensures
            *r == self.id_spec(),
    {
        &self.id
    }

    /// Returns the number of available child threads.
    pub fn len(&self) -> (r: usize)
        ensures
            r == self.slots().len(),
    {
        self.slots.len()
    }

    /// Picks the identifiers of the children to create so that at least
    /// `count` are available: none if there are enough already, else one per
    /// missing child, each the previous identifier incremented.
    ///
    /// Fails if more than `MAX_THREADS` children are asked for; the children
    /// are then left as they were. The identifiers must not run out: the last
    /// byte of the last identifier, plus the number of missing children, is at
    /// most 255.
    pub fn alloc_ids(&mut self, count: usize) -> (r: Result<Vec<ThreadId>, ContextError>)
        requires
            count <= MAX_THREADS && count > old(self).slots().len() ==> old(self).id_spec()@.last() + (count
                - old(self).slots().len()) <= u8::MAX,
        ensures
            final(self).slots() == old(self).slots(),
            final(self).max_concurrency_spec() == old(self).max_concurrency_spec(),
            r is Err <==> count > MAX_THREADS,
            count <= MAX_THREADS && count <= old(self).slots().len() ==> (r matches Ok(ids)
                && ids@.len() == 0),
            count <= MAX_THREADS && count > old(self).slots().len() ==> ({
                let missing = count - old(self).slots().len();
                let last = old(self).id_spec()@.last();
                &&& (r matches Ok(ids) ==> {
                    &&& ids@.len() == missing
                    &&& forall|i: int|
                        0 <= i < missing ==> (#[trigger] ids@[i])@ == old(self).id_spec()@.drop_last().push(
                            (last + i + 1) as u8,
                        )
                    &&& final(self).id_spec()@ == old(self).id_spec()@.drop_last().push(
                        (last + missing) as u8,
                    )
                })
            }),
            r matches Err(e) ==> (e.kind_spec() == ErrorKind::Thread && final(self).id_spec()
                == old(self).id_spec()),
    {
        let mut ids: Vec<ThreadId> = Vec::new();
        if count > MAX_THREADS {
            return Err(ContextError::new(ErrorKind::Thread));
        }
        let len = self.slots.len();
        if len >= count {
            return Ok(ids);
        }
        let missing = count - len;
        let ghost base = self.id@;
        let last = self.id.as_bytes()[self.id.as_bytes().len() - 1];
        let mut id = self.id.clone();
        let mut i: usize = 0;
        while i < missing
            invariant
                i <= missing,
                base.len() > 0,
                last == base.last(),
                last + missing <= u8::MAX,
                ids@.len() == i,
                id@ == base.drop_last().push((last + i) as u8),
                forall|j: int|
                    0 <= j < i ==> (#[trigger] ids@[j])@ == base.drop_last().push((last + j + 1) as u8),
            decreases missing - i,
        {
            let ghost before = id@;
            let ok = id.increment_in_place();
            proof {
                assert(before.last() == (last + i) as u8);
                assert(before.drop_last() =~= base.drop_last());
            }
            assert(ok);
            ids.push(id.clone());
            i = i + 1;
        }
        self.id = id;
        Ok(ids)
    }

    /// Adds a created child.
    pub fn push(&mut self, child: C)
        ensures
            final(self).slots() == old(self).slots().push(child),
            final(self).id_spec() == old(self).id_spec(),
            final(self).max_concurrency_spec() == old(self).max_concurrency_spec(),
    {
        self.slots.push(child);
    }

    /// Returns the first child, for work that runs beside the parent.
    pub fn first_mut(&mut self) -> (r: &mut C)
        requires
            old(self).slots().len() > 0,
        ensures
            *r == old(self).slots()[0],
    {
        &mut self.slots[0]
    }

    /// Returns the children.
    pub fn as_slice_mut(&mut self) -> (r: &mut [C])
        ensures
            r@ == old(self).slots(),
    {
        self.slots.as_mut_slice()
    }
}

/// A thread context from a multi-threaded executor.
#[derive(Debug)]
pub struct MTContext<M, Io, C> {
    id: ThreadId,
    mux: M,
    io: Io,
    children: Children<C>,
}

impl<M, Io, C> MTContext<M, Io, C> {
    /// The thread ID.
    pub closed spec fn id_spec(&self) -> ThreadId {
        self.id
    }

    /// The thread's children.
    pub closed spec fn children_spec(&self) -> Children<C> {
        self.children
    }

    /// The multiplexer.
    pub closed spec fn mux_spec(&self) -> M {
        self.mux
    }

    /// The thread's I/O channel.
    pub closed spec fn io_spec(&self) -> Io {
        self.io
    }

    /// Creates the context of a thread; its children's identifiers follow the
    /// thread's own, forked.
    pub fn new(id: ThreadId, mux: M, io: Io, max_concurrency: usize) -> (r: Self)
        ensures
            r.id_spec() == id,
            r.children_spec().id_spec()@ == id@.push(0),
            r.children_spec().slots().len() == 0,
            r.children_spec().max_concurrency_spec() == max_concurrency,
            r.mux_spec() == mux,
            r.io_spec() == io,
    {
        let child_id = id.fork();
        MTContext { id, mux, io, children: Children::new(child_id, max_concurrency) }
    }

    /// Returns the thread ID.
    pub fn id(&self) -> (r: &ThreadId)
        ensures
            *r == self.id_spec(),
    {
        &self.id
    }

    /// Returns the maximum degree of concurrency.
    pub fn max_concurrency(&self) -> (r: usize)
        ensures
            r == self.children_spec().max_concurrency_spec(),
    {
        self.children.max_concurrency()
    }

    /// Returns the multiplexer.
    pub fn mux(&self) -> (r: &M)
        ensures
            *r == self.mux_spec(),
    {
        &self.mux
    }

    /// Returns the thread's I/O channel, to be used in place.
    pub fn io_mut(&mut self) -> (r: &mut Io)
        ensures
            *r == old(self).io_spec(),
            final(self).io_spec() == *final(r),
            final(self).id_spec() == old(self).id_spec(),
            final(self).mux_spec() == old(self).mux_spec(),
            final(self).children_spec() == old(self).children_spec(),
    {
        &mut self.io
    }

    /// Returns the thread's children.
    pub fn children_mut(&mut self) -> (r: &mut Children<C>)
        ensures
            *r == old(self).children_spec(),
    {
        &mut self.children
    }
}

} // verus!
