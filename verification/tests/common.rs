use mpz::common::context::{ContextError, ErrorKind};
use mpz::common::executor::{Children, DummyExecutor, MTContext, MTExecutor, STExecutor, MAX_THREADS};
use mpz::common::queue::{distribute, interleave};
use mpz::common::{Counter, RRQueue, SimpleQueue, ThreadId};

#[test]
fn thread_id_new_fork_increment() {
    let id = ThreadId::new(3);
    assert_eq!(id.as_bytes(), &[3]);
    let child = id.fork();
    assert_eq!(child.as_bytes(), &[3, 0]);
    let next = child.increment().unwrap();
    assert_eq!(next.as_bytes(), &[3, 1]);
    assert_ne!(next, child);
    assert_eq!(ThreadId::default().as_bytes(), &[0]);
    assert!(ThreadId::new(255).increment().is_none());
    let mut id = ThreadId::new(254);
    assert!(id.increment_in_place());
    assert_eq!(id.as_bytes(), &[255]);
    assert!(!id.increment_in_place());
    assert_eq!(id.as_bytes(), &[255]);
}

#[test]
fn counter_next_and_peek() {
    let mut c = Counter::default();
    assert_eq!(c.peek().get(), 1);
    let prev = c.next();
    assert_eq!(prev.get(), 0);
    assert_eq!(c.get(), 1);
    assert_eq!(c.next(), prev.peek());
}

#[test]
fn distribute_deals_round_robin() {
    let lanes = distribute(vec![0, 1, 2, 3, 4, 5, 6], 3);
    assert_eq!(lanes, vec![vec![0, 3, 6], vec![1, 4], vec![2, 5]]);
    let empty: Vec<Vec<u8>> = distribute(Vec::new(), 0);
    assert!(empty.is_empty());
}

#[test]
fn interleave_gathers_in_task_order() {
    let tasks: Vec<u32> = (0..10).collect();
    let lanes = distribute(tasks.clone(), 4);
    let results: Vec<Vec<u32>> = lanes.into_iter().map(|l| l.into_iter().map(|t| t * 10).collect()).collect();
    assert_eq!(interleave(results), tasks.iter().map(|t| t * 10).collect::<Vec<_>>());
    // Gathering stops at the first lane that runs dry.
    assert_eq!(interleave(vec![vec![1, 4], vec![2], vec![3, 6]]), vec![1, 2, 3, 4]);
    assert!(interleave::<u8>(Vec::new()).is_empty());
}

#[test]
fn test_rr_queue() {
    let mut ctx = vec![0u8, 1, 2];
    let mut queue = RRQueue::new(&mut ctx);
    for task in 0..4u32 {
        queue.push(task);
    }
    assert_eq!(queue.lane_count(), 3);
    let lanes = queue.schedule();
    assert_eq!(lanes, vec![vec![0, 3], vec![1], vec![2]]);
    let results: Vec<Vec<u32>> = lanes
        .iter()
        .zip(queue.lanes_mut().iter())
        .map(|(lane, _ctx)| lane.clone())
        .collect();
    let results = interleave(results);

    assert_eq!(results.len(), 4);
    // Results are in the order they were pushed.
    assert_eq!(results, vec![0, 1, 2, 3]);
}

#[test]
fn simple_queue_is_fifo() {
    let mut state = 0u32;
    let mut queue = SimpleQueue::new(&mut state);
    queue.push(1u32);
    queue.push(2u32);
    assert_eq!(queue.next_task(), Some(1));
    assert_eq!(queue.next_task(), Some(2));
    assert_eq!(queue.next_task(), None);
    *queue.state_mut() += 1;
    assert_eq!(state, 1);
}

#[test]
fn executors() {
    let st = STExecutor::new(());
    assert_eq!(st.id().as_bytes(), &[0]);
    assert_eq!(st.max_concurrency(), 1);
    let dummy = DummyExecutor::new();
    assert_eq!(dummy.id().as_bytes(), &[0]);

    let mut mt = MTExecutor::new((), 8);
    assert_eq!(mt.max_concurrency(), 8);
    let id = mt.next_thread_id().unwrap();
    assert_eq!(id.as_bytes(), &[1]);
    for _ in 1..255 {
        mt.next_thread_id().unwrap();
    }
    let err = mt.next_thread_id().unwrap_err();
    assert_eq!(err.kind(), ErrorKind::Thread);
}

#[test]
fn children_get_consecutive_ids() {
    let ctx: MTContext<(), (), u8> = MTContext::new(ThreadId::new(2), (), (), 4);
    assert_eq!(ctx.id().as_bytes(), &[2]);
    assert_eq!(ctx.max_concurrency(), 4);
    let mut children: Children<u8> = Children::new(ThreadId::new(2).fork(), 4);
    let ids = children.alloc_ids(3).unwrap();
    let ids: Vec<Vec<u8>> = ids.iter().map(|id| id.as_bytes().to_vec()).collect();
    assert_eq!(ids, vec![vec![2, 1], vec![2, 2], vec![2, 3]]);
    assert_eq!(children.id().as_bytes(), &[2, 3]);
    for c in 0..3u8 {
        children.push(c);
    }
    assert!(children.alloc_ids(2).unwrap().is_empty());
    assert!(children.alloc_ids(MAX_THREADS + 1).is_err());
    assert_eq!(*children.first_mut(), 0);
    assert_eq!(children.as_slice_mut().len(), 3);
}

#[test]
fn context_error() {
    let e = ContextError::new_with_source(ErrorKind::Mux, String::from("closed"));
    assert_eq!(e.kind(), ErrorKind::Mux);
    assert_eq!(e.source(), Some("closed"));
    assert_eq!(ContextError::new(ErrorKind::Thread).source(), None);
}

#[test]
fn counter_and_error_kind_text() {
    let mut c = Counter::default();
    assert_eq!(c.to_string(), "0");
    for _ in 0..42 {
        c.next();
    }
    assert_eq!(c.to_string(), "42");
    assert_eq!(ErrorKind::Mux.message(), "multiplexer error");
    assert_eq!(ErrorKind::Thread.message(), "thread error");
}
