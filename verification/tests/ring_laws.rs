use async_socket::CircularBuf;

fn drain(cbuf: &mut CircularBuf, n: usize) -> Vec<u8> {
    let mut out = vec![0u8; n];
    let got = cbuf.consume(&mut out);
    out.truncate(got);
    out
}

#[test]
fn round_trip_in_order() {
    let mut cbuf = CircularBuf::from_raw_parts(vec![0; 9]);
    assert_eq!(cbuf.produce(&[1, 2, 3]), 3);
    assert_eq!(cbuf.produce(&[4, 5]), 2);
    assert_eq!(drain(&mut cbuf, 5), vec![1, 2, 3, 4, 5]);
    assert!(cbuf.is_empty());
}

#[test]
fn capacity_invariant_holds_throughout() {
    let mut cbuf = CircularBuf::from_raw_parts(vec![0; 8]);
    let cap = cbuf.capacity();
    assert_eq!(cap, 7);
    for step in 0..30 {
        let chunk = vec![step as u8; 3];
        cbuf.produce(&chunk);
        assert_eq!(cbuf.producible() + cbuf.consumable(), cap);
        assert_eq!(cbuf.is_full(), cbuf.producible() == 0);
        assert_eq!(cbuf.is_empty(), cbuf.consumable() == 0);
        drain(&mut cbuf, 2);
        assert_eq!(cbuf.producible() + cbuf.consumable(), cap);
        assert_eq!(cbuf.is_full(), cbuf.producible() == 0);
        assert_eq!(cbuf.is_empty(), cbuf.consumable() == 0);
    }
}

#[test]
fn wraparound_preserves_data() {
    // Chunks of 7 through a 10-byte ring (capacity 9): cursors cross the
    // end of the storage again and again, and every byte must survive.
    let mut cbuf = CircularBuf::from_raw_parts(vec![0; 10]);
    let mut produced: u64 = 0;
    let mut consumed: u64 = 0;
    let mut next_in: u8 = 0;
    let mut next_out: u8 = 0;
    while produced < 200 {
        let mut chunk = Vec::new();
        for _ in 0..7 {
            chunk.push(next_in);
            next_in = next_in.wrapping_add(1);
        }
        let n = cbuf.produce(&chunk);
        // Un-produced bytes must be offered again later.
        for _ in n..7 {
            next_in = next_in.wrapping_sub(1);
        }
        produced += n as u64;

        let out = drain(&mut cbuf, 5);
        for b in out {
            assert_eq!(b, next_out);
            next_out = next_out.wrapping_add(1);
            consumed += 1;
        }
    }
    // Drain the rest.
    loop {
        let out = drain(&mut cbuf, 3);
        if out.is_empty() {
            break;
        }
        for b in out {
            assert_eq!(b, next_out);
            next_out = next_out.wrapping_add(1);
            consumed += 1;
        }
    }
    assert_eq!(produced, consumed);
}

#[test]
fn partial_produce_when_full() {
    let mut cbuf = CircularBuf::from_raw_parts(vec![0; 5]);
    assert_eq!(cbuf.produce(&[9, 9, 9, 9, 9, 9, 9]), 4);
    assert!(cbuf.is_full());
    assert_eq!(cbuf.produce(&[1]), 0);
    assert_eq!(drain(&mut cbuf, 9), vec![9, 9, 9, 9]);
}

#[test]
fn consume_without_copy_drops_front() {
    let mut cbuf = CircularBuf::from_raw_parts(vec![0; 8]);
    cbuf.produce(&[10, 20, 30, 40]);
    assert_eq!(cbuf.consume_without_copy(2), 2);
    assert_eq!(drain(&mut cbuf, 8), vec![30, 40]);
    // Clamped to what is buffered.
    cbuf.produce(&[1, 2]);
    assert_eq!(cbuf.consume_without_copy(10), 2);
    assert!(cbuf.is_empty());
}

#[test]
fn produce_without_copy_commits_staged_bytes() {
    let mut cbuf = CircularBuf::from_raw_parts(vec![0; 8]);
    // Stage bytes through the copying path, release them, then recommit the
    // same storage region without copying: the old bytes reappear.
    cbuf.produce(&[7, 8, 9]);
    assert_eq!(cbuf.consume_without_copy(3), 3);
    assert_eq!(cbuf.producible(), 7);
    // The producer cursor now stands past the staged bytes; committing 4
    // picks up whatever the storage holds there.
    assert_eq!(cbuf.produce_without_copy(4), 4);
    assert_eq!(cbuf.consumable(), 4);
    // Clamped to the free room.
    assert_eq!(cbuf.produce_without_copy(100), 3);
    assert!(cbuf.is_full());
}

#[test]
fn consumer_view_sees_both_segments() {
    let mut cbuf = CircularBuf::from_raw_parts(vec![0; 6]);
    // Wrap the buffered bytes around the end of the storage.
    cbuf.produce(&[1, 2, 3, 4]);
    cbuf.consume_without_copy(3);
    cbuf.produce(&[5, 6, 7]);
    // Buffered: 4 5 6 7 with a seam somewhere; the two segments must hand
    // out exactly those bytes, in order.
    let mut seen: Vec<u8> = Vec::new();
    let n = cbuf.with_consumer_view(|part0, part1| {
        seen.extend_from_slice(part0);
        seen.extend_from_slice(part1);
        part0.len() + part1.len()
    });
    assert_eq!(seen, vec![4, 5, 6, 7]);
    assert_eq!(n, 4);
    assert!(cbuf.is_empty());
}

#[test]
fn consumer_view_result_is_clamped() {
    let mut cbuf = CircularBuf::from_raw_parts(vec![0; 6]);
    cbuf.produce(&[1, 2, 3]);
    // A closure reporting more than is buffered releases only the buffered
    // total.
    let n = cbuf.with_consumer_view(|_part0, _part1| 100);
    assert_eq!(n, 3);
    assert!(cbuf.is_empty());
}

#[test]
fn producer_view_reports_free_runs() {
    let mut cbuf = CircularBuf::from_raw_parts(vec![0; 6]);
    cbuf.produce(&[1, 2, 3, 4]);
    cbuf.consume_without_copy(2);
    // head == 2, tail == 4, storage length 6: the free runs are 4..6 and
    // 0..1 (one byte before the consumer cursor stays unusable).
    let mut runs = (0, 0);
    let n = cbuf.with_producer_view(|len0, len1| {
        runs = (len0, len1);
        0
    });
    assert_eq!(runs, (2, 1));
    assert_eq!(n, 0);
    assert_eq!(cbuf.consumable(), 2);
}

#[test]
fn to_vec_copies_without_consuming() {
    let mut cbuf = CircularBuf::from_raw_parts(vec![0; 8]);
    cbuf.produce(&[11, 22, 33]);
    assert_eq!(cbuf.to_vec(), vec![11, 22, 33]);
    assert_eq!(cbuf.consumable(), 3);
}
