use async_socket::common::Common;
use async_socket::receiver::RecvAction;
use async_socket::Receiver;

const EAGAIN: i32 = 11;

fn read_n(receiver: &mut Receiver, common: &mut Common, n: usize) -> (i32, Vec<u8>, RecvAction) {
    let mut out = vec![0u8; n];
    let (ret, action) = receiver.try_read(common, &mut out);
    if ret > 0 {
        out.truncate(ret as usize);
    } else {
        out.clear();
    }
    (ret, out, action)
}

#[test]
fn construction_arms_initial_fill() {
    let receiver = Receiver::new(16);
    assert_eq!(receiver.fill_room(), 15);
}

#[test]
fn empty_buffer_reads_eagain_before_eof() {
    let mut common = Common::new(4);
    let mut receiver = Receiver::new(16);
    let (ret, data, action) = read_n(&mut receiver, &mut common, 8);
    assert_eq!(ret, -EAGAIN);
    assert!(data.is_empty());
    assert_eq!(action, RecvAction::Nothing);
}

#[test]
fn zero_length_read_returns_zero() {
    let mut common = Common::new(4);
    let mut receiver = Receiver::new(16);
    let mut out: Vec<u8> = Vec::new();
    let (ret, action) = receiver.try_read(&mut common, &mut out);
    assert_eq!(ret, 0);
    assert_eq!(action, RecvAction::Nothing);
}

#[test]
fn fill_delivers_bytes_to_readers() {
    let mut common = Common::new(4);
    let mut receiver = Receiver::new(16);
    let action = receiver.handle_fill_completion(&mut common, 5, b"hello");
    assert_eq!(action, RecvAction::SubmitFill);
    assert!(common.pollee().is_in);
    let (ret, data, _) = read_n(&mut receiver, &mut common, 3);
    assert_eq!(ret, 3);
    assert_eq!(data, b"hel".to_vec());
    let (ret, data, _) = read_n(&mut receiver, &mut common, 10);
    assert_eq!(ret, 2);
    assert_eq!(data, b"lo".to_vec());
    assert!(!common.pollee().is_in);
}

#[test]
fn full_buffer_does_not_chain_fill() {
    let mut common = Common::new(4);
    let mut receiver = Receiver::new(8);
    let action = receiver.handle_fill_completion(&mut common, 7, b"0123456");
    assert_eq!(action, RecvAction::Nothing);
}

#[test]
fn eof_is_sticky_even_after_drain() {
    let mut common = Common::new(4);
    let mut receiver = Receiver::new(16);
    receiver.handle_fill_completion(&mut common, 4, b"tail");
    // The next fill reports end-of-file while bytes are still buffered.
    let action = receiver.handle_fill_completion(&mut common, 0, b"");
    assert_eq!(action, RecvAction::Nothing);
    assert!(common.pollee().is_in);
    // Buffered bytes remain readable.
    let (ret, data, _) = read_n(&mut receiver, &mut common, 10);
    assert_eq!(ret, 4);
    assert_eq!(data, b"tail".to_vec());
    // Once drained, every further read reports end-of-file as 0 — never
    // EAGAIN, never an error.
    for _ in 0..3 {
        let (ret, data, action) = read_n(&mut receiver, &mut common, 10);
        assert_eq!(ret, 0);
        assert!(data.is_empty());
        assert_eq!(action, RecvAction::Nothing);
    }
}

#[test]
fn failed_fill_latches_error() {
    let mut common = Common::new(4);
    let mut receiver = Receiver::new(16);
    let action = receiver.handle_fill_completion(&mut common, -104, b"");
    assert_eq!(action, RecvAction::Nothing);
    assert_eq!(common.error(), Some(-104));
    assert!(common.pollee().is_err);
    let (ret, data, _) = read_n(&mut receiver, &mut common, 4);
    assert_eq!(ret, -104);
    assert!(data.is_empty());
}

#[test]
fn shutdown_closes_read_half_immediately() {
    let receiver = Receiver::new(16);
    assert_eq!(receiver.shutdown(), RecvAction::CloseReadHalf);
}
