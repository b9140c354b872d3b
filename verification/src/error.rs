//! What can go wrong in the relay.

use vstd::prelude::*;

verus! {

/// One of the relay's two sockets.
#[derive(Clone, Copy, Debug, PartialEq, Eq, Structural)]
pub enum Endpoint {
    /// The client-facing socket, bound to the configured listening address.
    Listener,
    /// The upstream-facing socket, bound to an ephemeral port and connected
    /// to the configured upstream peer.
    Upstream,
}

/// One of the three operations that make up an exchange.
#[derive(Clone, Copy, Debug, PartialEq, Eq, Structural)]
pub enum Stage {
    /// Waiting for a client's datagram on the listener.
    ReceiveRequest,
    /// Sending the request upstream and waiting for the answer.
    Forward,
    /// Sending the answer back to the client.
    Reply,
}

impl Stage {
    /// The socket an operation works on.
    pub open spec fn spec_endpoint(self) -> Endpoint {
        match self {
            Stage::ReceiveRequest => Endpoint::Listener,
            Stage::Forward => Endpoint::Upstream,
            Stage::Reply => Endpoint::Listener,
        }
    }

    /// The socket an operation works on.
    #[verifier::when_used_as_spec(spec_endpoint)]
    pub fn endpoint(self) -> (endpoint: Endpoint)
        ensures
            endpoint == self.spec_endpoint(),
    {
        match self {
            Stage::ReceiveRequest => Endpoint::Listener,
            Stage::Forward => Endpoint::Upstream,
            Stage::Reply => Endpoint::Listener,
        }
    }
}

/// A failure that ends the relay.
#[derive(Clone, Copy, Debug, PartialEq, Eq, Structural)]
pub enum RelayError {
    /// The configured address of a socket is malformed.
    AddressParse(Endpoint),
    /// A socket could not be bound to, or associated with, its address.
    Bind(Endpoint),
    /// A socket operation failed while the relay was running.
    Io(Stage),
}

impl RelayError {
    /// Whether the failure happened before the relay loop was entered.
    pub open spec fn spec_at_startup(self) -> bool {
        self is AddressParse || self is Bind
    }

    /// Whether the failure happened before the relay loop was entered.
    #[verifier::when_used_as_spec(spec_at_startup)]
    pub fn at_startup(self) -> (startup: bool)
        ensures
            startup == self.spec_at_startup(),
    {
        match self {
            RelayError::AddressParse(_) => true,
            RelayError::Bind(_) => true,
            RelayError::Io(_) => false,
        }
    }

    /// The socket the failure concerns.
    pub open spec fn spec_endpoint(self) -> Endpoint {
        match self {
            RelayError::AddressParse(endpoint) => endpoint,
            RelayError::Bind(endpoint) => endpoint,
            RelayError::Io(stage) => stage.spec_endpoint(),
        }
    }

    /// The socket the failure concerns.
    #[verifier::when_used_as_spec(spec_endpoint)]
    pub fn endpoint(self) -> (endpoint: Endpoint)
        ensures
            endpoint == self.spec_endpoint(),
    {
        match self {
            RelayError::AddressParse(endpoint) => endpoint,
            RelayError::Bind(endpoint) => endpoint,
            RelayError::Io(stage) => stage.endpoint(),
        }
    }
}

} // verus!
