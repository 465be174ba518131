use soundboard::ring::{AudioRing, Full, RingError, SILENCE};

fn drained(latency: usize) -> AudioRing {
    let mut ring = AudioRing::new(latency).unwrap();
    for _ in 0..latency {
        assert_eq!(ring.pop(), Some(SILENCE));
    }
    assert!(ring.is_empty());
    ring
}

#[test]
fn new_ring_holds_one_latency_of_silence() {
    let mut ring = AudioRing::new(4).unwrap();
    assert_eq!(ring.capacity(), 8);
    assert_eq!(ring.latency_samples(), 4);
    assert_eq!(ring.len(), 4);
    assert!(!ring.is_empty());
    assert!(!ring.is_full());
    for _ in 0..4 {
        assert_eq!(ring.pop(), Some(0));
    }
    assert_eq!(ring.pop(), None);
    assert_eq!(ring.len(), 0);
}

#[test]
fn ring_of_no_latency_is_refused() {
    assert_eq!(AudioRing::new(0).err(), Some(RingError::NoLatency));
}

#[test]
fn ring_of_twice_more_than_a_length_is_refused() {
    assert_eq!(AudioRing::new(usize::MAX).err(), Some(RingError::TooLong));
    assert_eq!(AudioRing::new(usize::MAX / 2 + 1).err(), Some(RingError::TooLong));
}

#[test]
fn ring_that_cannot_be_allocated_is_refused() {
    assert_eq!(AudioRing::new(usize::MAX / 2).err(), Some(RingError::OutOfMemory));
}

#[test]
fn pushes_come_out_in_order() {
    let mut ring = drained(3);
    let batch: [u32; 6] = [11, 22, 33, 44, 55, 66];
    for sample in batch {
        assert_eq!(ring.push(sample), Ok(()));
    }
    assert!(ring.is_full());
    let mut popped = Vec::new();
    for _ in 0..batch.len() {
        popped.push(ring.pop().unwrap());
    }
    assert_eq!(popped, batch);
    assert!(ring.is_empty());
}

#[test]
fn pushes_come_out_after_the_silence() {
    let mut ring = AudioRing::new(2).unwrap();
    assert_eq!(ring.push(7), Ok(()));
    assert_eq!(ring.push(8), Ok(()));
    assert_eq!(ring.pop(), Some(0));
    assert_eq!(ring.pop(), Some(0));
    assert_eq!(ring.pop(), Some(7));
    assert_eq!(ring.pop(), Some(8));
    assert_eq!(ring.pop(), None);
}

#[test]
fn full_ring_refuses_and_keeps_its_samples() {
    let mut ring = drained(1);
    assert_eq!(ring.push(1), Ok(()));
    assert_eq!(ring.push(2), Ok(()));
    assert_eq!(ring.push(3), Err(Full));
    assert_eq!(ring.push(4), Err(Full));
    assert_eq!(ring.len(), 2);
    assert_eq!(ring.pop(), Some(1));
    assert_eq!(ring.pop(), Some(2));
    assert_eq!(ring.pop(), None);
}

#[test]
fn empty_ring_gives_nothing_and_stays_empty() {
    let mut ring = drained(2);
    assert_eq!(ring.pop(), None);
    assert_eq!(ring.pop(), None);
    assert!(ring.is_empty());
    assert_eq!(ring.len(), 0);
    assert_eq!(ring.capacity(), 4);
}

#[test]
fn ring_wraps_around_its_storage() {
    let mut ring = drained(2);
    for round in 0..10u32 {
        assert_eq!(ring.push(round), Ok(()));
        assert_eq!(ring.push(round + 100), Ok(()));
        assert_eq!(ring.push(round + 200), Ok(()));
        assert_eq!(ring.pop(), Some(round));
        assert_eq!(ring.pop(), Some(round + 100));
        assert_eq!(ring.pop(), Some(round + 200));
    }
    assert!(ring.is_empty());
}

#[test]
fn split_ends_share_one_queue() {
    let (mut writer, mut reader) = AudioRing::new(2).unwrap().split();
    assert_eq!(writer.push(5), Ok(()));
    assert_eq!(writer.push(6), Ok(()));
    assert_eq!(writer.push(7), Err(Full));
    assert_eq!(reader.pop(), Some(0));
    assert_eq!(reader.pop(), Some(0));
    assert_eq!(reader.pop(), Some(5));
    assert_eq!(writer.push(7), Ok(()));
    assert_eq!(reader.pop(), Some(6));
    assert_eq!(reader.pop(), Some(7));
    assert_eq!(reader.pop(), None);
}
