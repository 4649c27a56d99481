use async_socket::common::Common;
use async_socket::Events;

#[test]
fn new_socket_state_is_clear() {
    let common = Common::new(7);
    assert_eq!(common.fd(), 7);
    assert_eq!(common.error(), None);
    assert!(common.pollee().is_empty());
}

#[test]
fn set_error_last_write_wins() {
    let mut common = Common::new(7);
    common.set_error(-32);
    assert_eq!(common.error(), Some(-32));
    // A later failure overwrites an earlier one, deliberately.
    common.set_error(-104);
    assert_eq!(common.error(), Some(-104));
}

#[test]
fn events_add_remove_and_intersect() {
    let mut events = Events::empty();
    assert!(events.is_empty());
    events.add(Events::just_in());
    events.add(Events::just_err());
    assert!(events.is_in);
    assert!(events.is_err);
    assert!(!events.is_out);
    assert!(events.intersects(Events::just_in()));
    assert!(!events.intersects(Events::just_out()));
    events.remove(Events::just_in());
    assert!(!events.is_in);
    assert!(events.is_err);
    assert!(!events.intersects(Events::just_in()));
}

#[test]
fn pollee_updates_through_common() {
    let mut common = Common::new(7);
    common.add_events(Events::just_out());
    assert!(common.pollee().is_out);
    common.remove_events(Events::just_out());
    assert!(common.pollee().is_empty());
    common.add_events(Events::just_hup());
    assert!(common.pollee().is_hup);
}
