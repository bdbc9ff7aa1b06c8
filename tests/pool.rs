use connpool::{ConnectionContext, ConnectionSet, PoolError, BUFFSIZE};

fn occupied_count<const N: usize>(pool: &ConnectionSet<N>) -> usize {
    let mut n = 0;
    for i in 0..N {
        if pool.conn(i).is_some() {
            n += 1;
        }
    }
    n
}

#[test]
fn new_pool_has_every_slot_free() {
    let pool: ConnectionSet<4> = ConnectionSet::new();
    assert_eq!(pool.capacity(), 4);
    assert_eq!(pool.free_count(), 4);
    assert_eq!(occupied_count(&pool), 0);
}

#[test]
fn slots_are_handed_out_in_order() {
    let mut pool: ConnectionSet<3> = ConnectionSet::new();
    assert_eq!(pool.add(ConnectionContext::new(10)), Ok(0));
    assert_eq!(pool.add(ConnectionContext::new(11)), Ok(1));
    assert_eq!(pool.add(ConnectionContext::new(12)), Ok(2));
    assert_eq!(pool.conn(1).map(|c| c.fd()), Some(11));
}

#[test]
fn accounting_holds_through_adds_and_removes() {
    let mut pool: ConnectionSet<5> = ConnectionSet::new();
    for fd in 0..4 {
        pool.add(ConnectionContext::new(fd)).unwrap();
        assert_eq!(occupied_count(&pool) + pool.free_count(), 5);
    }
    pool.remove(1);
    assert_eq!(occupied_count(&pool) + pool.free_count(), 5);
    pool.remove(3);
    assert_eq!(occupied_count(&pool), 2);
    assert_eq!(pool.free_count(), 3);
}

#[test]
fn remove_twice_is_a_no_op_the_second_time() {
    let mut pool: ConnectionSet<2> = ConnectionSet::new();
    let i = pool.add(ConnectionContext::new(20)).unwrap();
    let first = pool.remove(i);
    assert_eq!(first.map(|c| c.fd()), Some(20));
    assert_eq!(pool.free_count(), 2);
    let second = pool.remove(i);
    assert!(second.is_none());
    assert_eq!(pool.free_count(), 2);
    // the slot appears once in the free list: two adds take two slots
    assert!(pool.add(ConnectionContext::new(21)).is_ok());
    assert!(pool.add(ConnectionContext::new(22)).is_ok());
    assert_eq!(pool.add(ConnectionContext::new(23)), Err(PoolError::Exhausted));
}

#[test]
fn remove_of_an_empty_slot_changes_nothing() {
    let mut pool: ConnectionSet<3> = ConnectionSet::new();
    assert!(pool.remove(2).is_none());
    assert_eq!(pool.free_count(), 3);
    assert_eq!(pool.add(ConnectionContext::new(5)), Ok(0));
}

#[test]
fn add_then_remove_restores_the_pool() {
    let mut pool: ConnectionSet<3> = ConnectionSet::new();
    pool.add(ConnectionContext::new(30)).unwrap();
    let before_free = pool.free_count();
    let i = pool.add(ConnectionContext::new(31)).unwrap();
    assert_eq!(i, 1);
    pool.remove(i);
    assert_eq!(pool.free_count(), before_free);
    assert!(pool.conn(1).is_none());
    assert_eq!(pool.conn(0).map(|c| c.fd()), Some(30));
    // the returned slot went to the back of the queue
    assert_eq!(pool.add(ConnectionContext::new(32)), Ok(2));
    assert_eq!(pool.add(ConnectionContext::new(33)), Ok(1));
}

#[test]
fn full_pool_refuses_and_stays_unchanged() {
    let mut pool: ConnectionSet<3> = ConnectionSet::new();
    for fd in 0..3 {
        assert_eq!(pool.add(ConnectionContext::new(40 + fd)), Ok(fd as usize));
    }
    assert_eq!(pool.add(ConnectionContext::new(99)), Err(PoolError::Exhausted));
    assert_eq!(pool.free_count(), 0);
    for i in 0..3 {
        assert_eq!(pool.conn(i).map(|c| c.fd()), Some(40 + i as i32));
    }
}

#[test]
fn capacity_two_scenario() {
    let mut pool: ConnectionSet<2> = ConnectionSet::new();
    assert_eq!(pool.add(ConnectionContext::new(100)), Ok(0));
    assert_eq!(pool.add(ConnectionContext::new(101)), Ok(1));
    assert_eq!(pool.add(ConnectionContext::new(102)), Err(PoolError::Exhausted));
    assert_eq!(pool.remove(0).map(|c| c.fd()), Some(100));
    assert_eq!(pool.add(ConnectionContext::new(103)), Ok(0));
    assert_eq!(pool.conn(0).map(|c| c.fd()), Some(103));
}

#[test]
fn read_fills_the_buffer_of_the_slot() {
    let mut pool: ConnectionSet<2> = ConnectionSet::new();
    let i = pool.add(ConnectionContext::new(7)).unwrap();
    let sent = b"0123456789";
    assert_eq!(pool.read(i, sent), Ok(10));
    let conn = pool.conn(i).unwrap();
    assert_eq!(&conn.buffer[..10], &sent[..]);
    assert!(conn.buffer[10..].iter().all(|&b| b == 0));
    assert_eq!(conn.payload(10), sent.to_vec());
}

#[test]
fn read_of_an_empty_slot_is_refused() {
    let mut pool: ConnectionSet<2> = ConnectionSet::new();
    assert_eq!(pool.read(1, b"abc"), Err(PoolError::NotOccupied));
    assert_eq!(pool.read(5, b"abc"), Err(PoolError::NotOccupied));
    assert_eq!(pool.free_count(), 2);
}

#[test]
fn read_reports_zero_on_end_of_stream() {
    let mut pool: ConnectionSet<1> = ConnectionSet::new();
    let i = pool.add(ConnectionContext::new(8)).unwrap();
    assert_eq!(pool.read(i, b""), Ok(0));
}

#[test]
fn stale_bytes_do_not_survive_a_shorter_read() {
    let mut conn = ConnectionContext::new(3);
    assert_eq!(conn.read(&[9u8; BUFFSIZE]), BUFFSIZE);
    assert_eq!(conn.read(b"hi"), 2);
    assert_eq!(&conn.buffer[..2], b"hi");
    assert!(conn.buffer[2..].iter().all(|&b| b == 0));
    assert_eq!(conn.payload(2), b"hi".to_vec());
}

#[test]
fn new_connection_has_zeroed_buffer() {
    let conn = ConnectionContext::new(12);
    assert_eq!(conn.fd(), 12);
    assert_eq!(conn.buffer, [0u8; BUFFSIZE]);
    assert_eq!(conn.payload(0), Vec::<u8>::new());
}
