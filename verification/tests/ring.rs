use py_hotstart::ring::ExitInfoRecord;

#[test]
fn ring_stores_and_looks_up() {
    let mut ring = ExitInfoRecord::new(128);
    assert_eq!(ring.get(1), None);
    ring.set(1, 0);
    ring.set(2, 143);
    ring.set(3, 1);
    assert_eq!(ring.get(1), Some(0));
    assert_eq!(ring.get(2), Some(143));
    assert_eq!(ring.get(3), Some(1));
    assert_eq!(ring.get(4), None);
}

#[test]
fn ring_overwrites_oldest_when_full() {
    let mut ring = ExitInfoRecord::new(3);
    ring.set(1, 10);
    ring.set(2, 20);
    ring.set(3, 30);
    // Full: the next entry evicts the oldest.
    ring.set(4, 40);
    assert_eq!(ring.get(1), None);
    assert_eq!(ring.get(2), Some(20));
    assert_eq!(ring.get(3), Some(30));
    assert_eq!(ring.get(4), Some(40));
    ring.set(5, 50);
    assert_eq!(ring.get(2), None);
    assert_eq!(ring.get(3), Some(30));
    assert_eq!(ring.get(5), Some(50));
}

#[test]
fn ring_wraps_repeatedly() {
    let mut ring = ExitInfoRecord::new(2);
    let mut seq: u32 = 1;
    while seq <= 9 {
        ring.set(seq, seq as i32);
        seq += 1;
    }
    // Only the two most recent entries survive.
    assert_eq!(ring.get(7), None);
    assert_eq!(ring.get(8), Some(8));
    assert_eq!(ring.get(9), Some(9));
}

#[test]
fn ring_lookup_returns_first_stored_match() {
    // The supervisor never records one seq twice; the ring itself reports
    // the first match in slot order.
    let mut ring = ExitInfoRecord::new(4);
    ring.set(1, 10);
    ring.set(1, 20);
    assert_eq!(ring.get(1), Some(10));
}

#[test]
fn ring_lookup_by_unknown_seq_is_absent() {
    let mut ring = ExitInfoRecord::new(4);
    ring.set(10, 7);
    assert_eq!(ring.get(11), None);
    assert_eq!(ring.get(0), None);
}
