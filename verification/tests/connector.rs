use async_socket::connector::ConnectAction;
use async_socket::socket_addr::htons;
use async_socket::socket_addr::AF_INET;
use async_socket::Connector;
use async_socket::SockAddrIn;

const EPIPE: i32 = 32;

fn loopback(port: u16) -> SockAddrIn {
    SockAddrIn { sin_family: AF_INET, sin_port: htons(port), sin_addr: htons(127) as u32 }
}

#[test]
fn connect_submits_and_latches_result() {
    let mut connector = Connector::new();
    let addr = loopback(3456);
    let (ret, action) = connector.start_connect(&addr);
    assert_eq!(ret, 0);
    assert_eq!(action, ConnectAction::SubmitConnect);
    assert_eq!(connector.target_addr(), Some(addr));
    assert_eq!(connector.connect_result(), None);
    connector.handle_connect_completion(0);
    assert_eq!(connector.connect_result(), Some(0));
    assert!(connector.private_pollee().is_in);
    assert!(!connector.private_pollee().is_err);
}

#[test]
fn failed_connect_raises_err_on_private_channel() {
    let mut connector = Connector::new();
    let (ret, _) = connector.start_connect(&loopback(80));
    assert_eq!(ret, 0);
    connector.handle_connect_completion(-111);
    assert_eq!(connector.connect_result(), Some(-111));
    assert!(connector.private_pollee().is_err);
    assert!(!connector.private_pollee().is_in);
}

#[test]
fn connect_after_shutdown_is_epipe() {
    let mut connector = Connector::new();
    connector.shutdown();
    assert!(connector.is_shutdown());
    let (ret, action) = connector.start_connect(&loopback(3456));
    assert_eq!(ret, -EPIPE);
    assert_eq!(action, ConnectAction::Nothing);
    assert_eq!(connector.target_addr(), None);
}

#[test]
fn shutdown_raises_hup_to_wake_waiters() {
    let mut connector = Connector::new();
    assert!(!connector.private_pollee().is_hup);
    connector.shutdown();
    assert!(connector.private_pollee().is_hup);
}
