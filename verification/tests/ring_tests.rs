use velox_engine::ring::RingBuffer;

#[test]
fn test_ring_buffer_basic() {
    let mut ring = RingBuffer::<u64, 4>::new();

    assert!(ring.is_empty());
    assert!(!ring.is_full());

    assert!(ring.push(1).is_ok());
    assert!(ring.push(2).is_ok());
    assert!(!ring.is_empty());

    assert_eq!(ring.pop(), Some(1));
    assert_eq!(ring.pop(), Some(2));
    assert_eq!(ring.pop(), None);
    assert!(ring.is_empty());
}

#[test]
fn test_ring_buffer_full() {
    let mut ring = RingBuffer::<u64, 4>::new();

    assert!(ring.push(1).is_ok());
    assert!(ring.push(2).is_ok());
    assert!(ring.push(3).is_ok());
    assert!(ring.push(4).is_ok());

    assert!(ring.is_full());
    assert_eq!(ring.push(5), Err(5));

    assert_eq!(ring.pop(), Some(1));
    assert!(ring.push(5).is_ok());
}

#[test]
fn test_ring_buffer_wrap_around() {
    let mut ring = RingBuffer::<u64, 4>::new();

    for i in 0..4 {
        assert!(ring.push(i).is_ok());
    }
    for i in 0..4 {
        assert_eq!(ring.pop(), Some(i));
    }
    for i in 10..14 {
        assert!(ring.push(i).is_ok());
    }
    for i in 10..14 {
        assert_eq!(ring.pop(), Some(i));
    }
}

#[test]
fn test_fifo_order() {
    let mut ring = RingBuffer::<u64, 1024>::new();

    for i in 0..100 {
        assert!(ring.push(i).is_ok());
    }
    for i in 0..100 {
        assert_eq!(ring.pop(), Some(i));
    }
}

#[test]
fn test_concurrent_ring_push_pop() {
    // One producer and one consumer taking turns on the same queue.
    let mut ring = RingBuffer::<u64, 4096>::new();
    let mut next: u64 = 0;
    let mut count = 0;
    let mut last: Option<u64> = None;
    while count < 1000 {
        for _ in 0..3 {
            if next < 1000 && ring.push(next).is_ok() {
                next += 1;
            }
        }
        for _ in 0..2 {
            if let Some(val) = ring.pop() {
                if let Some(prev) = last {
                    assert_eq!(val, prev + 1, "FIFO order violated");
                }
                last = Some(val);
                count += 1;
            }
        }
    }
    assert_eq!(last, Some(999));
}

#[test]
fn fifo_under_load() {
    let mut ring = RingBuffer::<u64, 4096>::new();
    let mut expected: u64 = 0;
    let mut value: u64 = 0;
    while expected < 10_000 {
        while value < 10_000 && ring.push(value).is_ok() {
            value += 1;
        }
        while let Some(v) = ring.pop() {
            assert_eq!(v, expected);
            expected += 1;
        }
    }
    assert!(ring.is_empty());
}

#[test]
fn len_tracks_occupancy() {
    let mut ring = RingBuffer::<u64, 8>::new();
    assert_eq!(ring.len(), 0);
    for i in 0..8 {
        assert!(ring.push(i).is_ok());
        assert_eq!(ring.len(), (i + 1) as usize);
    }
    assert!(ring.is_full());
    assert_eq!(ring.push(99), Err(99));
    assert_eq!(ring.len(), 8);
    assert_eq!(ring.pop(), Some(0));
    assert_eq!(ring.len(), 7);
}

#[test]
fn no_loss_when_drained() {
    let mut ring = RingBuffer::<u64, 1024>::new();
    let offered: Vec<u64> = (0..1500).map(|i| i * 7 % 1_000_000).collect();
    let mut pushed = Vec::new();
    for v in &offered {
        if ring.push(*v).is_ok() {
            pushed.push(*v);
        }
    }
    let mut popped = Vec::new();
    while let Some(v) = ring.pop() {
        popped.push(v);
    }
    assert_eq!(pushed.len(), 1024);
    assert!(pushed.len() <= offered.len());
    assert_eq!(popped, pushed);
}

#[test]
fn queue_of_one_slot() {
    let mut ring = RingBuffer::<u8, 1>::new();
    assert!(ring.push(1).is_ok());
    assert!(ring.is_full());
    assert_eq!(ring.push(2), Err(2));
    assert_eq!(ring.pop(), Some(1));
    assert_eq!(ring.pop(), None);
}
