use peer_chat::dispatch::{ConnectionProtocolMismatch, ConnectionState, Dispatcher};

fn gossip() -> Dispatcher {
    Dispatcher::new(b"/iroh-gossip/0".to_vec())
}

#[test]
fn registered_protocol_is_accepted() {
    assert_eq!(gossip().negotiate(ConnectionState::Pending, b"/iroh-gossip/0"), ConnectionState::Accepted);
}

#[test]
fn another_protocol_is_rejected() {
    let rejected = ConnectionState::Rejected(ConnectionProtocolMismatch);
    assert_eq!(gossip().negotiate(ConnectionState::Pending, b"PIPE"), rejected);
    assert_eq!(gossip().negotiate(ConnectionState::Pending, b""), rejected);
    assert_eq!(gossip().negotiate(ConnectionState::Pending, b"/iroh-gossip/"), rejected);
    assert_eq!(gossip().negotiate(ConnectionState::Pending, b"/iroh-gossip/01"), rejected);
    assert_eq!(gossip().negotiate(ConnectionState::Pending, b"/IROH-GOSSIP/0"), rejected);
}

#[test]
fn rejection_does_not_touch_the_next_connection() {
    let dispatcher = gossip();
    let rejected = ConnectionState::Rejected(ConnectionProtocolMismatch);
    assert_eq!(dispatcher.negotiate(ConnectionState::Pending, b"JOTB_PIPE"), rejected);
    assert_eq!(dispatcher.negotiate(ConnectionState::Pending, b"/iroh-gossip/0"), ConnectionState::Accepted);
    assert_eq!(dispatcher.negotiate(ConnectionState::Pending, b"WEB3_PIPE"), rejected);
    assert_eq!(dispatcher.negotiate(ConnectionState::Pending, b"/iroh-gossip/0"), ConnectionState::Accepted);
}

#[test]
fn decided_connection_stays_decided() {
    let rejected = ConnectionState::Rejected(ConnectionProtocolMismatch);
    assert_eq!(gossip().negotiate(ConnectionState::Accepted, b"PIPE"), ConnectionState::Accepted);
    assert_eq!(gossip().negotiate(rejected, b"/iroh-gossip/0"), rejected);
}

#[test]
fn dispatcher_keeps_its_protocol() {
    assert_eq!(gossip().protocol(), b"/iroh-gossip/0");
    let pipe = Dispatcher::new(b"PIPE".to_vec());
    assert_eq!(pipe.protocol(), b"PIPE");
    assert_eq!(pipe.negotiate(ConnectionState::Pending, b"PIPE"), ConnectionState::Accepted);
}
