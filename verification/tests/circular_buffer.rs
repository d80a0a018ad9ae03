use muy_zipido::circular_buffer::CircularBuffer;

#[test]
fn test_new_buffer() {
    let cb: CircularBuffer<i32> = CircularBuffer::new(4);
    assert_eq!(cb.capacity(), 4);
    assert_eq!(cb.len(), 0);
    assert!(cb.is_empty());
    assert!(!cb.is_full());
}

#[test]
fn test_write_and_read() {
    let mut cb = CircularBuffer::new(3);

    cb.write(10);
    assert_eq!(cb.read_oldest(), Some(10));
    assert_eq!(cb.len(), 1);

    cb.write(20);
    cb.write(30);
    assert_eq!(cb.read_oldest(), Some(10));
    assert!(cb.is_full());

    cb.write(40);
    assert_eq!(cb.read_oldest(), Some(20));
    assert_eq!(cb.get_all_chronological(), vec![20, 30, 40]);
}

#[test]
fn test_get_last_n() {
    let mut cb = CircularBuffer::new(4);

    cb.write(10);
    cb.write(20);
    cb.write(30);
    cb.write(40);

    assert_eq!(cb.get_last_n(2), vec![30, 40]);
    assert_eq!(cb.get_last_n(10), vec![10, 20, 30, 40]);
    assert_eq!(cb.get_last_n(0), vec![]);

    cb.write(50);
    assert_eq!(cb.get_last_n(3), vec![30, 40, 50]);
}

#[test]
fn test_clear() {
    let mut cb = CircularBuffer::new(3);
    cb.write(10);
    cb.write(20);

    cb.clear();
    assert!(cb.is_empty());
    assert_eq!(cb.len(), 0);
    assert_eq!(cb.read_oldest(), None);
}

#[test]
fn test_with_bytes() {
    let mut cb: CircularBuffer<u8> = CircularBuffer::new(4);

    cb.write(0x50);
    cb.write(0x4b);
    cb.write(0x07);
    cb.write(0x08);

    let last_4 = cb.get_last_n(4);
    assert_eq!(last_4, vec![0x50, 0x4b, 0x07, 0x08]);
}

#[test]
fn snapshot_is_the_most_recent_values_for_every_capacity() {
    for capacity in 1usize..8 {
        for writes in 0usize..30 {
            let mut cb: CircularBuffer<u32> = CircularBuffer::new(capacity);
            let values: Vec<u32> = (0..writes as u32).map(|v| v * 7 + 1).collect();
            for v in &values {
                cb.write(*v);
            }
            let held = writes.min(capacity);
            let expected: Vec<u32> = values[writes - held..].to_vec();
            assert_eq!(cb.get_all_chronological(), expected);
            assert_eq!(cb.len(), held);
            assert_eq!(cb.is_full(), held == capacity);
            for k in 0usize..10 {
                let take = k.min(held);
                assert_eq!(cb.get_last_n(k), expected[held - take..].to_vec());
            }
        }
    }
}

#[test]
fn filling_exactly_reads_back_in_write_order() {
    for capacity in 1usize..12 {
        let mut cb: CircularBuffer<u8> = CircularBuffer::new(capacity);
        let values: Vec<u8> = (0..capacity as u8).map(|v| 200 - v).collect();
        for v in &values {
            cb.write(*v);
        }
        assert_eq!(cb.get_last_n(capacity), values);
    }
}

#[test]
fn last_n_of_nothing_is_empty() {
    let mut cb: CircularBuffer<u8> = CircularBuffer::new(5);
    assert_eq!(cb.get_last_n(0), Vec::<u8>::new());
    assert_eq!(cb.get_last_n(3), Vec::<u8>::new());
    assert_eq!(cb.get_all_chronological(), Vec::<u8>::new());
    cb.write(1);
    cb.write(2);
    assert_eq!(cb.get_last_n(0), Vec::<u8>::new());
}

#[test]
fn oldest_follows_the_wraparound() {
    let mut cb: CircularBuffer<u8> = CircularBuffer::new(2);
    assert_eq!(cb.read_oldest(), None);
    cb.write(1);
    assert_eq!(cb.read_oldest(), Some(1));
    cb.write(2);
    assert_eq!(cb.read_oldest(), Some(1));
    cb.write(3);
    assert_eq!(cb.read_oldest(), Some(2));
    cb.write(4);
    assert_eq!(cb.read_oldest(), Some(3));
    cb.write(5);
    assert_eq!(cb.read_oldest(), Some(4));
    assert_eq!(cb.get_all_chronological(), vec![4, 5]);
}

#[test]
fn a_ring_without_room_stays_empty() {
    let mut cb: CircularBuffer<u8> = CircularBuffer::new(0);
    cb.write(9);
    cb.write(10);
    assert_eq!(cb.len(), 0);
    assert!(cb.is_empty());
    assert!(cb.is_full());
    assert_eq!(cb.capacity(), 0);
    assert_eq!(cb.read_oldest(), None);
    assert_eq!(cb.get_all_chronological(), Vec::<u8>::new());
    assert_eq!(cb.get_last_n(4), Vec::<u8>::new());
}

#[test]
fn clear_keeps_the_capacity_and_starts_over() {
    let mut cb: CircularBuffer<u8> = CircularBuffer::new(3);
    for v in 0..5 {
        cb.write(v);
    }
    cb.clear();
    assert_eq!(cb.capacity(), 3);
    cb.write(7);
    cb.write(8);
    assert_eq!(cb.get_all_chronological(), vec![7, 8]);
    cb.write(9);
    cb.write(10);
    assert_eq!(cb.get_all_chronological(), vec![8, 9, 10]);
}
