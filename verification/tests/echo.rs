use async_socket::echo::EchoAction;
use async_socket::echo::Token;
use async_socket::socket_addr::htons;
use async_socket::AcceptCount;
use async_socket::EchoServer;

#[test]
fn htons_swaps_bytes() {
    assert_eq!(htons(3456), 0x800d);
    assert_eq!(htons(0x0102), 0x0201);
    assert_eq!(htons(0), 0);
    assert_eq!(htons(0xffff), 0xffff);
}

#[test]
fn try_push_accept_drains_count() {
    let mut accept = AcceptCount::new(9, 3);
    assert_eq!(accept.try_push_accept(), 3);
    assert_eq!(accept.try_push_accept(), 0);
    accept.note_accepted();
    assert_eq!(accept.try_push_accept(), 1);
}

#[test]
fn accepted_connection_is_polled_and_replenished() {
    let mut server = EchoServer::new();
    let mut accept = AcceptCount::new(9, 0);
    let action = server.handle_event(&mut accept, Token::Accept, 12);
    assert_eq!(action, EchoAction::SubmitPoll { fd: 12 });
    assert_eq!(accept.try_push_accept(), 1);
}

#[test]
fn poll_allocates_then_recycles_buffers() {
    let mut server = EchoServer::new();
    let mut accept = AcceptCount::new(9, 0);
    // No free buffer yet: a fresh one is handed out.
    let action = server.handle_event(&mut accept, Token::Poll { fd: 12 }, 1);
    assert_eq!(action, EchoAction::SubmitRead { fd: 12, buf_index: 0 });
    // A second connection gets its own buffer.
    let action = server.handle_event(&mut accept, Token::Poll { fd: 13 }, 1);
    assert_eq!(action, EchoAction::SubmitRead { fd: 13, buf_index: 1 });
    // The peer on fd 12 hangs up: its buffer returns to the pool...
    let action = server.handle_event(&mut accept, Token::Read { fd: 12, buf_index: 0 }, 0);
    assert_eq!(action, EchoAction::CloseFd { fd: 12 });
    // ...and the next readable connection recycles it.
    let action = server.handle_event(&mut accept, Token::Poll { fd: 14 }, 1);
    assert_eq!(action, EchoAction::SubmitRead { fd: 14, buf_index: 0 });
}

#[test]
fn read_bytes_are_echoed_back() {
    let mut server = EchoServer::new();
    let mut accept = AcceptCount::new(9, 0);
    server.handle_event(&mut accept, Token::Poll { fd: 12 }, 1);
    let action = server.handle_event(&mut accept, Token::Read { fd: 12, buf_index: 0 }, 42);
    assert_eq!(action, EchoAction::SubmitWrite { fd: 12, buf_index: 0, offset: 0, len: 42 });
}

#[test]
fn finished_write_recycles_buffer_and_polls() {
    let mut server = EchoServer::new();
    let mut accept = AcceptCount::new(9, 0);
    server.handle_event(&mut accept, Token::Poll { fd: 12 }, 1);
    let token = Token::Write { fd: 12, buf_index: 0, offset: 0, len: 42 };
    let action = server.handle_event(&mut accept, token, 42);
    assert_eq!(action, EchoAction::SubmitPoll { fd: 12 });
    // The buffer is back in the pool.
    let action = server.handle_event(&mut accept, Token::Poll { fd: 12 }, 1);
    assert_eq!(action, EchoAction::SubmitRead { fd: 12, buf_index: 0 });
}

#[test]
fn short_write_resubmits_remainder() {
    let mut server = EchoServer::new();
    let mut accept = AcceptCount::new(9, 0);
    server.handle_event(&mut accept, Token::Poll { fd: 12 }, 1);
    let token = Token::Write { fd: 12, buf_index: 0, offset: 0, len: 42 };
    let action = server.handle_event(&mut accept, token, 10);
    assert_eq!(action, EchoAction::SubmitWrite { fd: 12, buf_index: 0, offset: 10, len: 32 });
}
