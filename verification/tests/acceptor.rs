use async_socket::common::Common;
use async_socket::socket_addr::AF_INET;
use async_socket::Acceptor;
use async_socket::SockAddrIn;

const EAGAIN: i32 = 11;

fn peer(port: u16) -> SockAddrIn {
    SockAddrIn { sin_family: AF_INET, sin_port: port, sin_addr: 0x0100007f }
}

#[test]
fn backlog_is_clamped() {
    let (acceptor, armed) = Acceptor::new(0);
    assert_eq!(acceptor.backlog(), 1);
    assert_eq!(armed.len(), 1);
    let (acceptor, armed) = Acceptor::new(100);
    assert_eq!(acceptor.backlog(), 16);
    assert_eq!(armed.len(), 16);
}

#[test]
fn construction_arms_whole_backlog() {
    let (acceptor, armed) = Acceptor::new(3);
    assert_eq!(acceptor.backlog(), 3);
    assert_eq!(armed.len(), 3);
    assert_eq!(acceptor.pending(), 3);
    assert_eq!(acceptor.completed(), 0);
}

#[test]
fn accept_without_completion_is_eagain() {
    let (mut acceptor, _armed) = Acceptor::new(2);
    let mut common = Common::new(5);
    let (code, addr, armed) = acceptor.try_accept(&mut common);
    assert_eq!(code, -EAGAIN);
    assert_eq!(addr, None);
    assert!(armed.is_empty());
}

#[test]
fn accept_returns_sticky_error_when_nothing_completed() {
    let (mut acceptor, _armed) = Acceptor::new(2);
    let mut common = Common::new(5);
    common.set_error(-104);
    let (code, addr, _) = acceptor.try_accept(&mut common);
    assert_eq!(code, -104);
    assert_eq!(addr, None);
}

#[test]
fn completion_then_accept_round_trips_fd_and_peer() {
    let (mut acceptor, armed) = Acceptor::new(2);
    let mut common = Common::new(5);
    let who = peer(4242);
    acceptor.handle_completion(&mut common, armed[0], 31, &who);
    assert!(common.pollee().is_in);
    assert_eq!(acceptor.completed(), 1);
    assert_eq!(acceptor.pending() + acceptor.completed(), 2);
    let (code, addr, rearmed) = acceptor.try_accept(&mut common);
    assert_eq!(code, 31);
    assert_eq!(addr, Some(who));
    assert_eq!(rearmed.len(), 1);
    assert_eq!(acceptor.pending() + acceptor.completed(), 2);
    // The queue emptied: readable readiness is withdrawn.
    assert!(!common.pollee().is_in);
}

#[test]
fn failed_completion_latches_error_and_abandons_slot() {
    let (mut acceptor, armed) = Acceptor::new(2);
    let mut common = Common::new(5);
    acceptor.handle_completion(&mut common, armed[1], -104, &peer(0));
    assert_eq!(common.error(), Some(-104));
    assert!(common.pollee().is_err);
    // The slot is gone, with no retry: the invariant is restored only by
    // the refill a later consumption performs.
    assert_eq!(acceptor.pending() + acceptor.completed(), 1);
    let (code, _, _) = acceptor.try_accept(&mut common);
    assert_eq!(code, -104);
}

#[test]
fn scenario_backlog_three_five_connections_fifo() {
    // A backlog-3 acceptor; five successful completions arrive, interleaved
    // with consumptions as slots allow. accept() must hand the descriptors
    // out in completion order, and pending + completed must equal 3 after
    // every step.
    let (mut acceptor, armed) = Acceptor::new(3);
    let mut common = Common::new(5);
    assert_eq!(armed.len(), 3);

    let mut arm_queue: Vec<usize> = armed;
    let mut next_fd: i32 = 100;
    let mut accepted: Vec<i32> = Vec::new();

    // Three completions fill the backlog before any accept() is serviced.
    for _ in 0..3 {
        let key = arm_queue.remove(0);
        acceptor.handle_completion(&mut common, key, next_fd, &peer(next_fd as u16));
        next_fd += 1;
        assert_eq!(acceptor.pending() + acceptor.completed(), 3);
    }

    // Consume and keep feeding completions until five connections are in.
    while accepted.len() < 5 {
        let (code, addr, rearmed) = acceptor.try_accept(&mut common);
        assert!(code >= 0);
        assert_eq!(addr, Some(peer(code as u16)));
        accepted.push(code);
        assert_eq!(acceptor.pending() + acceptor.completed(), 3);
        arm_queue.extend(rearmed);
        if next_fd < 105 {
            let key = arm_queue.remove(0);
            acceptor.handle_completion(&mut common, key, next_fd, &peer(next_fd as u16));
            next_fd += 1;
            assert_eq!(acceptor.pending() + acceptor.completed(), 3);
        }
    }

    // FIFO: the descriptors come out in the order their completions fired.
    assert_eq!(accepted, vec![100, 101, 102, 103, 104]);
}

#[test]
fn fifo_order_with_queued_completions() {
    let (mut acceptor, armed) = Acceptor::new(3);
    let mut common = Common::new(5);
    // Complete in a scrambled arm order: consumption must follow the
    // completion order, not the arm order.
    acceptor.handle_completion(&mut common, armed[2], 7, &peer(7));
    acceptor.handle_completion(&mut common, armed[0], 8, &peer(8));
    acceptor.handle_completion(&mut common, armed[1], 9, &peer(9));
    let (a, _, _) = acceptor.try_accept(&mut common);
    let (b, _, _) = acceptor.try_accept(&mut common);
    let (c, _, _) = acceptor.try_accept(&mut common);
    assert_eq!((a, b, c), (7, 8, 9));
}
