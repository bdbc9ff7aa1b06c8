use connpool::{
    AcceptOutcome, Action, Dispatcher, Event, ReadOutcome, Tag, BUFFSIZE, LISTEN_TOKEN,
};

fn accept(d: &mut Dispatcher<2>, fd: i32) -> Action {
    d.handle(Event::Accept(AcceptOutcome::Accepted(fd)))
}

#[test]
fn startup_registers_the_listener() {
    let d: Dispatcher<4> = Dispatcher::new(3);
    assert_eq!(d.startup(), Action::Register { fd: 3, tag: Tag::Listener });
}

#[test]
fn listener_readiness_asks_for_an_accept() {
    let mut d: Dispatcher<4> = Dispatcher::new(3);
    assert_eq!(d.handle(Event::Ready(LISTEN_TOKEN)), Action::Accept);
}

#[test]
fn scenario_pool_of_two() {
    let mut d: Dispatcher<2> = Dispatcher::new(3);
    assert_eq!(accept(&mut d, 10), Action::Register { fd: 10, tag: Tag::Connection(0) });
    assert_eq!(accept(&mut d, 11), Action::Register { fd: 11, tag: Tag::Connection(1) });
    assert_eq!(accept(&mut d, 12), Action::Reject { fd: 12 });
    assert_eq!(d.pool().free_count(), 0);
    assert_eq!(
        d.handle(Event::Read(0, ReadOutcome::Received(Vec::new()))),
        Action::Teardown { slot: 0, fd: 10 }
    );
    assert_eq!(d.pool().free_count(), 1);
    assert_eq!(accept(&mut d, 13), Action::Register { fd: 13, tag: Tag::Connection(0) });
    assert_eq!(d.pool().conn(0).map(|c| c.fd()), Some(13));
    assert_eq!(d.pool().conn(1).map(|c| c.fd()), Some(11));
}

#[test]
fn ten_bytes_are_delivered_then_end_of_stream_tears_down() {
    let mut d: Dispatcher<2> = Dispatcher::new(3);
    accept(&mut d, 20);
    assert_eq!(d.handle(Event::Ready(0)), Action::Read { slot: 0, fd: 20 });
    let sent: Vec<u8> = b"ten bytes!".to_vec();
    assert_eq!(sent.len(), 10);
    assert_eq!(
        d.handle(Event::Read(0, ReadOutcome::Received(sent.clone()))),
        Action::Deliver { slot: 0, bytes: sent.clone() }
    );
    let conn = d.pool().conn(0).unwrap();
    assert_eq!(&conn.buffer[..10], &sent[..]);
    assert_eq!(conn.payload(10), sent);
    assert_eq!(d.handle(Event::Read(0, ReadOutcome::Received(Vec::new()))), Action::Teardown {
        slot: 0,
        fd: 20,
    });
    assert!(d.pool().conn(0).is_none());
    assert_eq!(d.pool().free_count(), 2);
}

#[test]
fn failed_read_tears_down_and_would_block_does_nothing() {
    let mut d: Dispatcher<2> = Dispatcher::new(3);
    accept(&mut d, 30);
    assert_eq!(d.handle(Event::Read(0, ReadOutcome::WouldBlock)), Action::Idle);
    assert_eq!(d.pool().free_count(), 1);
    assert_eq!(d.handle(Event::Read(0, ReadOutcome::Failed)), Action::Teardown {
        slot: 0,
        fd: 30,
    });
    assert_eq!(d.handle(Event::Read(0, ReadOutcome::Failed)), Action::Idle);
    assert_eq!(d.pool().free_count(), 2);
}

#[test]
fn events_for_empty_or_unknown_slots_are_ignored() {
    let mut d: Dispatcher<2> = Dispatcher::new(3);
    assert_eq!(d.handle(Event::Ready(1)), Action::Idle);
    assert_eq!(d.handle(Event::Ready(500)), Action::Idle);
    assert_eq!(d.handle(Event::Read(1, ReadOutcome::Received(b"x".to_vec()))), Action::Idle);
    assert_eq!(d.handle(Event::Read(9, ReadOutcome::Received(Vec::new()))), Action::Idle);
    assert_eq!(d.pool().free_count(), 2);
}

#[test]
fn accept_errors_do_not_stop_the_loop() {
    let mut d: Dispatcher<2> = Dispatcher::new(3);
    assert_eq!(d.handle(Event::Accept(AcceptOutcome::Failed)), Action::Idle);
    assert_eq!(d.handle(Event::Accept(AcceptOutcome::WouldBlock)), Action::Idle);
    assert_eq!(d.handle(Event::Ready(LISTEN_TOKEN)), Action::Accept);
    assert_eq!(accept(&mut d, 40), Action::Register { fd: 40, tag: Tag::Connection(0) });
}

#[test]
fn full_buffer_is_accepted() {
    let mut d: Dispatcher<2> = Dispatcher::new(3);
    accept(&mut d, 50);
    let sent = vec![7u8; BUFFSIZE];
    assert_eq!(
        d.handle(Event::Read(0, ReadOutcome::Received(sent.clone()))),
        Action::Deliver { slot: 0, bytes: sent }
    );
}

/// Runs one wait cycle that reports only the listener, draining a fake
/// backlog the way the loop does. Returns the descriptors registered.
fn listener_cycle(d: &mut Dispatcher<4>, backlog: &mut Vec<i32>) -> Vec<i32> {
    let mut registered = Vec::new();
    let mut action = d.handle(Event::Ready(LISTEN_TOKEN));
    loop {
        match action {
            Action::Accept | Action::Register { .. } | Action::Reject { .. } => {
                if let Action::Register { fd, .. } = action {
                    registered.push(fd);
                }
                let outcome = if backlog.is_empty() {
                    AcceptOutcome::WouldBlock
                } else {
                    AcceptOutcome::Accepted(backlog.remove(0))
                };
                action = d.handle(Event::Accept(outcome));
            }
            _ => break,
        }
    }
    registered
}

#[test]
fn backlog_of_three_is_drained_with_batches_of_one() {
    let mut d: Dispatcher<4> = Dispatcher::new(3);
    let mut backlog = vec![60, 61, 62];
    let mut registered = Vec::new();
    for _ in 0..3 {
        registered.extend(listener_cycle(&mut d, &mut backlog));
    }
    assert!(backlog.is_empty());
    assert_eq!(registered, vec![60, 61, 62]);
    for (slot, fd) in [60, 61, 62].iter().enumerate() {
        assert_eq!(d.pool().conn(slot).map(|c| c.fd()), Some(*fd));
    }
    assert_eq!(d.pool().free_count(), 1);
}

/// A stand-in for the multiplexer: token to descriptor.
fn apply(registrations: &mut std::collections::HashMap<u64, i32>, action: &Action) {
    match action {
        Action::Register { fd, tag } => {
            registrations.insert(tag.to_token(), *fd);
        }
        Action::Teardown { slot, .. } => {
            registrations.remove(&Tag::Connection(*slot).to_token());
        }
        _ => {}
    }
}

#[test]
fn registrations_follow_the_slots() {
    let mut d: Dispatcher<3> = Dispatcher::new(3);
    let mut registrations = std::collections::HashMap::new();
    apply(&mut registrations, &d.startup());
    let events = vec![
        Event::Accept(AcceptOutcome::Accepted(70)),
        Event::Accept(AcceptOutcome::Accepted(71)),
        Event::Read(0, ReadOutcome::Received(b"hello".to_vec())),
        Event::Read(0, ReadOutcome::Failed),
        Event::Accept(AcceptOutcome::Accepted(72)),
        Event::Accept(AcceptOutcome::Accepted(73)),
        Event::Accept(AcceptOutcome::Accepted(74)),
        Event::Read(1, ReadOutcome::Received(Vec::new())),
        Event::Read(1, ReadOutcome::Received(Vec::new())),
    ];
    for event in events {
        let action = d.handle(event);
        apply(&mut registrations, &action);
        assert_eq!(registrations.get(&LISTEN_TOKEN), Some(&3));
        for slot in 0..3 {
            let token = Tag::Connection(slot).to_token();
            assert_eq!(registrations.get(&token).copied(), d.pool().conn(slot).map(|c| c.fd()));
        }
    }
    assert_eq!(registrations.len(), 3);
}
