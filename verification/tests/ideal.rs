use mpz::common::{PendingCalls, ThreadId};

#[test]
fn pending_calls_meet_by_thread_id() {
    let mut alice: PendingCalls<u32> = PendingCalls::new();
    let root = ThreadId::new(0);
    let child = root.fork();

    // Nothing waits yet: the first call is stored.
    assert_eq!(alice.take(&child), None);
    assert_eq!(alice.insert(child.clone(), 7), None);
    assert_eq!(alice.insert(root.clone(), 1), None);

    // A call from another thread does not meet it.
    assert_eq!(alice.take(&ThreadId::new(5)), None);

    // Replacing the call of a thread hands back the earlier one.
    assert_eq!(alice.insert(child.clone(), 8), Some(7));

    // The other party's call from the same thread takes it, once.
    assert_eq!(alice.take(&child), Some(8));
    assert_eq!(alice.take(&child), None);
    assert_eq!(alice.take(&root), Some(1));
}
