use async_socket::common::Common;
use async_socket::sender::SendAction;
use async_socket::Sender;

const EPIPE: i32 = 32;
const EAGAIN: i32 = 11;

#[test]
fn write_buffers_and_requests_flush() {
    let mut common = Common::new(3);
    let mut sender = Sender::new(16);
    let (ret, action) = sender.try_write(&mut common, b"hello");
    assert_eq!(ret, 5);
    assert_eq!(action, SendAction::SubmitFlush);
    assert_eq!(sender.flush_data(), b"hello".to_vec());
    // A second write while a flush is in flight buffers without submitting.
    let (ret, action) = sender.try_write(&mut common, b"!");
    assert_eq!(ret, 1);
    assert_eq!(action, SendAction::Nothing);
    assert_eq!(sender.flush_data(), b"hello!".to_vec());
}

#[test]
fn zero_length_write_returns_zero_untouched() {
    let mut common = Common::new(3);
    let mut sender = Sender::new(8);
    sender.try_write(&mut common, b"abc");
    let before = sender.flush_data();
    let (ret, action) = sender.try_write(&mut common, b"");
    assert_eq!(ret, 0);
    assert_eq!(action, SendAction::Nothing);
    assert_eq!(sender.flush_data(), before);
}

#[test]
fn backpressure_returns_partial_then_eagain() {
    let mut common = Common::new(3);
    // Storage of 8 bytes: usable capacity 7.
    let mut sender = Sender::new(8);
    let (ret, _) = sender.try_write(&mut common, b"0123456789");
    assert_eq!(ret, 7);
    assert!(!common.pollee().is_out);
    // The ring is full: a further write cannot buffer a single byte.
    let (ret, action) = sender.try_write(&mut common, b"x");
    assert_eq!(ret, -EAGAIN);
    assert_eq!(action, SendAction::Nothing);
}

#[test]
fn write_after_shutdown_is_epipe() {
    let mut common = Common::new(3);
    let mut sender = Sender::new(8);
    assert_eq!(sender.shutdown(), SendAction::CloseWriteHalf);
    let (ret, action) = sender.try_write(&mut common, b"abc");
    assert_eq!(ret, -EPIPE);
    assert_eq!(action, SendAction::Nothing);
}

#[test]
fn sticky_error_is_returned_to_writers() {
    let mut common = Common::new(3);
    let mut sender = Sender::new(8);
    common.set_error(-104);
    let (ret, action) = sender.try_write(&mut common, b"abc");
    assert_eq!(ret, -104);
    assert_eq!(action, SendAction::Nothing);
}

#[test]
fn deferred_close_waits_for_drain() {
    let mut common = Common::new(3);
    let mut sender = Sender::new(16);
    let (_, action) = sender.try_write(&mut common, b"payload");
    assert_eq!(action, SendAction::SubmitFlush);
    // Shutdown with bytes still buffered: the write half must stay open.
    assert_eq!(sender.shutdown(), SendAction::Nothing);
    let (ret, action) = sender.try_write(&mut common, b"more");
    assert_eq!(ret, -EPIPE);
    assert_eq!(action, SendAction::Nothing);
    // A partial flush drains some bytes but not all: still open, and the
    // flush chains.
    let action = sender.handle_flush_completion(&mut common, 3);
    assert_eq!(action, SendAction::SubmitFlush);
    assert_eq!(sender.flush_data(), b"load".to_vec());
    // The completion that empties the buffer finally closes the half.
    let action = sender.handle_flush_completion(&mut common, 4);
    assert_eq!(action, SendAction::CloseWriteHalf);
}

#[test]
fn shutdown_with_empty_buffer_closes_at_once() {
    let mut sender = Sender::new(16);
    assert_eq!(sender.shutdown(), SendAction::CloseWriteHalf);
}

#[test]
fn failed_flush_discards_and_latches_error() {
    let mut common = Common::new(3);
    let mut sender = Sender::new(16);
    sender.try_write(&mut common, b"doomed");
    let action = sender.handle_flush_completion(&mut common, -32);
    assert_eq!(action, SendAction::Nothing);
    assert_eq!(sender.flush_data(), Vec::<u8>::new());
    assert_eq!(common.error(), Some(-32));
    assert!(common.pollee().is_err);
}

#[test]
fn successful_flush_restores_writability() {
    let mut common = Common::new(3);
    let mut sender = Sender::new(8);
    let (ret, _) = sender.try_write(&mut common, b"0123456789");
    assert_eq!(ret, 7);
    assert!(!common.pollee().is_out);
    let action = sender.handle_flush_completion(&mut common, 7);
    assert_eq!(action, SendAction::Nothing);
    assert!(common.pollee().is_out);
}
