use mpz::common::{Ticket, TicketQueue};

#[test]
fn ticket_increment_returns_previous() {
    let mut t = Ticket::new();
    assert_eq!(t.increment_in_place(), Ticket(0));
    assert_eq!(t.increment_in_place(), Ticket(1));
    assert_eq!(t, Ticket(2));
    assert_eq!(Ticket::default(), Ticket(0));

    let mut last = Ticket(u64::MAX);
    assert_eq!(last.increment_in_place(), Ticket(u64::MAX));
    assert_eq!(last, Ticket(0));
}

#[test]
fn ticket_queue_runs_work_in_ticket_order() {
    // The leader hands out tickets 0, 1, 2; the follower's tasks arrive in the
    // order 2, 1, 0.
    let mut leader = Ticket::new();
    let tickets: Vec<Ticket> = (0..3).map(|_| leader.increment_in_place()).collect();
    assert_eq!(tickets, vec![Ticket(0), Ticket(1), Ticket(2)]);

    let mut queue: TicketQueue<&'static str> = TicketQueue::new();
    let mut log = Vec::new();

    assert!(!queue.is_turn(tickets[2]));
    assert_eq!(queue.insert_waiting(tickets[2], "task 2"), None);
    assert!(!queue.is_turn(tickets[1]));
    assert_eq!(queue.insert_waiting(tickets[1], "stale"), None);
    assert_eq!(queue.insert_waiting(tickets[1], "task 1"), Some("stale"));

    assert!(queue.is_turn(tickets[0]));
    log.push(0);
    assert_eq!(queue.advance(), Some("task 1"));
    assert_eq!(queue.tick(), Ticket(1));

    assert!(queue.is_turn(tickets[1]));
    log.push(1);
    assert_eq!(queue.advance(), Some("task 2"));

    assert!(queue.is_turn(tickets[2]));
    log.push(2);
    assert_eq!(queue.advance(), None);
    assert_eq!(queue.tick(), Ticket(3));

    assert_eq!(log, vec![0, 1, 2]);
}
