//! The connection dispatcher's decision.
//!
//! Every inbound connection negotiates a protocol identifier. The dispatcher
//! hands a connection on to the overlay if that identifier is the one it was
//! registered with, and drops it otherwise. It keeps nothing of one
//! connection when it judges the next.

use crate::wire::bytes_equal;
use vstd::prelude::*;

verus! {

/// A connection presented another protocol identifier than the registered
/// one.
#[derive(Clone, Copy, Debug, PartialEq, Eq)]
pub struct ConnectionProtocolMismatch;

/// Where an inbound connection attempt stands.
#[derive(Clone, Copy, Debug, PartialEq, Eq)]
pub enum ConnectionState {
    /// The protocol identifier is not negotiated yet.
    Pending,
    /// The connection goes to the overlay's handler.
    Accepted,
    /// The connection is dropped, with a warning.
    Rejected(ConnectionProtocolMismatch),
}

/// The state that follows `state` when `presented` has been negotiated on a
/// connection to a dispatcher registered with `protocol`.
pub open spec fn negotiated(protocol: Seq<u8>, state: ConnectionState, presented: Seq<u8>)
    -> ConnectionState {
    match state {
        ConnectionState::Pending => if presented == protocol {
            ConnectionState::Accepted
        } else {
            ConnectionState::Rejected(ConnectionProtocolMismatch)
        },
        decided => decided,
    }
}

/// The judge of inbound connections for one protocol identifier.
#[derive(Clone, Debug, PartialEq, Eq)]
pub struct Dispatcher {
    protocol: Vec<u8>,
}

impl View for Dispatcher {
    type V = Seq<u8>;

    closed spec fn view(&self) -> Seq<u8> {
        self.protocol@
    }
}

impl Dispatcher {
    /// A dispatcher that accepts connections for `protocol`.
    pub fn new(protocol: Vec<u8>) -> (dispatcher: Dispatcher)
        ensures
            dispatcher@ == protocol@,
    {
        Dispatcher { protocol }
    }

    /// The protocol identifier that is accepted.
    pub fn protocol(&self) -> (protocol: &[u8])
        ensures
            protocol@ == self@,
    {
        self.protocol.as_slice()
    }

    /// Judges the connection in `state` on which `presented` was negotiated.
    /// A pending connection is accepted or rejected; a decided one stays as
    /// it is.
    pub fn negotiate(&self, state: ConnectionState, presented: &[u8]) -> (next: ConnectionState)
        ensures
            next == negotiated(self@, state, presented@),
    {
        match state {
            ConnectionState::Pending => {
                if bytes_equal(presented, self.protocol.as_slice()) {
                    ConnectionState::Accepted
                } else {
                    ConnectionState::Rejected(ConnectionProtocolMismatch)
                }
            },
            decided => decided,
        }
    }
}

/// Isolation: a connection that presents another identifier than the
/// registered one is rejected, and the connection behind it, which presents
/// the registered one, is accepted all the same. The dispatcher is not
/// changed by judging, so what holds of two connections holds of any number.
pub proof fn law_dispatch_is_isolated(protocol: Seq<u8>, first: Seq<u8>, second: Seq<u8>)
    requires
        first != protocol,
        second == protocol,
    ensures
        negotiated(protocol, ConnectionState::Pending, first) == ConnectionState::Rejected(
            ConnectionProtocolMismatch,
        ),
        negotiated(protocol, ConnectionState::Pending, second) == ConnectionState::Accepted,
{
}

} // verus!
