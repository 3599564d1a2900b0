use rendezvous::store::{CoordStore, StoreError};

#[test]
fn queue_fifo_order_preserved() {
    let mut s = CoordStore::new();
    let values: Vec<Vec<u8>> = vec![b"v1".to_vec(), b"v2".to_vec(), b"v3".to_vec(), b"v4".to_vec()];
    for v in &values {
        s.publish(7, v.clone()).unwrap();
    }
    for v in &values {
        let got = s.try_consume(7).unwrap().unwrap();
        assert_eq!(&got, v);
    }
    assert_eq!(s.try_consume(7).unwrap(), None);
}

#[test]
fn queue_interleaved_producers_fifo() {
    // Two producers alternate; the consumer sees the store's completion
    // order for the key.
    let mut s = CoordStore::new();
    s.publish(1, b"a1".to_vec()).unwrap();
    s.publish(1, b"b1".to_vec()).unwrap();
    s.publish(1, b"a2".to_vec()).unwrap();
    s.publish(1, b"b2".to_vec()).unwrap();
    assert_eq!(s.try_consume(1).unwrap().unwrap(), b"a1".to_vec());
    assert_eq!(s.try_consume(1).unwrap().unwrap(), b"b1".to_vec());
    assert_eq!(s.try_consume(1).unwrap().unwrap(), b"a2".to_vec());
    assert_eq!(s.try_consume(1).unwrap().unwrap(), b"b2".to_vec());
}

#[test]
fn blocking_pop_suspends_then_receives() {
    // A consumer that arrives before any publish observes nothing (and so
    // suspends); after a publish its retry receives exactly that value,
    // with no spurious result in between.
    let mut s = CoordStore::new();
    assert_eq!(s.try_consume(3).unwrap(), None);
    assert_eq!(s.try_consume(3).unwrap(), None);
    s.publish(3, b"payload".to_vec()).unwrap();
    assert_eq!(s.try_consume(3).unwrap().unwrap(), b"payload".to_vec());
    assert_eq!(s.try_consume(3).unwrap(), None);
}

#[test]
fn barrier_counts_every_announce_exactly_once() {
    let mut s = CoordStore::new();
    let target = 5u64;
    for i in 1..=target {
        let observed = s.announce(9).unwrap();
        assert_eq!(observed, i);
        // Fewer than `target` announces never release any caller.
        if i < target {
            assert!(s.read_counter(9).unwrap() < target);
        }
    }
    // The target-th caller observed the target; later calls return at once.
    assert!(s.read_counter(9).unwrap() >= target);
    let beyond = s.announce(9).unwrap();
    assert_eq!(beyond, target + 1);
    assert!(beyond >= target);
}

#[test]
fn purge_is_idempotent() {
    let mut s = CoordStore::new();
    s.publish(4, b"x".to_vec()).unwrap();
    s.announce(5).unwrap();
    s.purge(4);
    s.purge(4);
    s.purge(6); // never created
    assert_eq!(s.try_consume(4).unwrap(), None);
    assert_eq!(s.read_counter(4).unwrap(), 0);
    assert_eq!(s.read_counter(6).unwrap(), 0);
    // The untouched key is unaffected.
    assert_eq!(s.read_counter(5).unwrap(), 1);
    s.purge(5);
    assert_eq!(s.read_counter(5).unwrap(), 0);
}

#[test]
fn kind_mismatch_is_reported() {
    let mut s = CoordStore::new();
    s.publish(2, b"q".to_vec()).unwrap();
    assert_eq!(s.announce(2), Err(StoreError::KindMismatch));
    assert_eq!(s.read_counter(2), Err(StoreError::KindMismatch));
    let mut t = CoordStore::new();
    t.announce(2).unwrap();
    assert_eq!(t.publish(2, b"q".to_vec()), Err(StoreError::KindMismatch));
    assert_eq!(t.try_consume(2), Err(StoreError::KindMismatch));
}

#[test]
fn counter_value_read_matches_increments() {
    let mut s = CoordStore::new();
    assert_eq!(s.read_counter(11).unwrap(), 0);
    s.announce(11).unwrap();
    s.announce(11).unwrap();
    s.announce(11).unwrap();
    assert_eq!(s.read_counter(11).unwrap(), 3);
}
