//! The relay loop as a state machine.
//!
//! An exchange is one client request, forwarded upstream, answered, and the
//! answer handed back. The relay runs one exchange at a time: it reads a
//! request from the listener, sends it upstream and waits for the answer on
//! the same socket, sends the answer to the client, and only then reads the
//! next request. Because nothing else is read while an answer is outstanding,
//! the next datagram from upstream is the answer to the one request in
//! flight, and no identifier is needed to tell answers apart.
//!
//! [`Relay`] holds what has to be remembered between two socket operations.
//! [`Relay::step`] takes the outcome of the operation that was pending and
//! says which operation comes next. [`transition`] is the mathematical model
//! that `step` implements.

use vstd::prelude::*;
use crate::address::SocketAddress;
use crate::datagram::{clip, clipped, MAX_DATAGRAM_SIZE};
use crate::error::{RelayError, Stage};

verus! {

/// What becomes of the relay when forwarding a request or sending a reply
/// fails. A failure to read from the listener ends the relay either way.
#[derive(Clone, Copy, Debug, PartialEq, Eq, Structural)]
pub enum FailurePolicy {
    /// Any failed socket operation ends the relay.
    Abort,
    /// The exchange in which the failure occurred is given up: its client
    /// gets no reply, and the relay goes on with the next request.
    DropExchange,
}

/// The fixed settings of a relay.
#[derive(Clone, Copy, Debug, PartialEq, Eq, Structural)]
pub struct RelayConfig {
    /// The most bytes of a datagram that the relay passes on, in either
    /// direction. Longer datagrams are cut to this length.
    pub max_datagram_size: usize,
    /// What a failure inside an exchange leads to.
    pub policy: FailurePolicy,
}

impl RelayConfig {
    /// A ceiling of [`MAX_DATAGRAM_SIZE`] bytes, and every failure fatal.
    pub fn baseline() -> (config: RelayConfig)
        ensures
            config == (RelayConfig {
                max_datagram_size: MAX_DATAGRAM_SIZE,
                policy: FailurePolicy::Abort,
            }),
    {
        RelayConfig { max_datagram_size: MAX_DATAGRAM_SIZE, policy: FailurePolicy::Abort }
    }
}

/// Where the relay stands: which socket operation it is waiting for.
#[derive(Clone, Copy, Debug, PartialEq, Eq, Structural)]
pub enum Phase {
    /// No exchange is in progress; the relay waits for a client's datagram.
    AwaitingRequest,
    /// A request from `client` has been handed upstream; the relay waits for
    /// the answer and reads nothing from the listener meanwhile.
    AwaitingReply { client: SocketAddress },
    /// The answer is on its way back to the client.
    Replying,
    /// The relay has ended with `error`. Nothing is pending any more.
    Stopped { error: RelayError },
}

/// The outcome of a socket operation, as the driver reports it.
#[derive(Clone, Debug, PartialEq, Eq)]
pub enum Event {
    /// The listener delivered `datagram`, sent by `client`.
    RequestReceived { datagram: Vec<u8>, client: SocketAddress },
    /// The upstream socket delivered `datagram`.
    ReplyReceived { datagram: Vec<u8> },
    /// The reply has been sent to the client.
    ReplySent,
    /// The pending operation failed.
    Failed,
}

/// An [`Event`] with its bytes as a sequence.
pub ghost enum EventView {
    RequestReceived { datagram: Seq<u8>, client: SocketAddress },
    ReplyReceived { datagram: Seq<u8> },
    ReplySent,
    Failed,
}

impl View for Event {
    type V = EventView;

    open spec fn view(&self) -> EventView {
        match *self {
            Event::RequestReceived { datagram, client } => EventView::RequestReceived {
                datagram: datagram@,
                client,
            },
            Event::ReplyReceived { datagram } => EventView::ReplyReceived { datagram: datagram@ },
            Event::ReplySent => EventView::ReplySent,
            Event::Failed => EventView::Failed,
        }
    }
}

/// The socket operation that the driver is to carry out next.
#[derive(Clone, Debug, PartialEq, Eq)]
pub enum Action {
    /// Wait for the next datagram on the listener.
    ReceiveRequest,
    /// Send `payload` to the upstream peer, then wait for the next datagram
    /// on the upstream socket.
    Forward { payload: Vec<u8> },
    /// Send `payload` to `client` on the listener.
    Reply { payload: Vec<u8>, client: SocketAddress },
    /// End the relay and report `error`.
    Stop { error: RelayError },
}

/// An [`Action`] with its bytes as a sequence.
pub ghost enum ActionView {
    ReceiveRequest,
    Forward { payload: Seq<u8> },
    Reply { payload: Seq<u8>, client: SocketAddress },
    Stop { error: RelayError },
}

impl View for Action {
    type V = ActionView;

    open spec fn view(&self) -> ActionView {
        match *self {
            Action::ReceiveRequest => ActionView::ReceiveRequest,
            Action::Forward { payload } => ActionView::Forward { payload: payload@ },
            Action::Reply { payload, client } => ActionView::Reply { payload: payload@, client },
            Action::Stop { error } => ActionView::Stop { error },
        }
    }
}

/// The operation whose outcome the relay is waiting for in `phase`, if any.
pub open spec fn pending(phase: Phase) -> Option<Stage> {
    match phase {
        Phase::AwaitingRequest => Some(Stage::ReceiveRequest),
        Phase::AwaitingReply { .. } => Some(Stage::Forward),
        Phase::Replying => Some(Stage::Reply),
        Phase::Stopped { .. } => None,
    }
}

/// Whether `event` is an outcome of the operation pending in `phase`.
pub open spec fn answers(phase: Phase, event: EventView) -> bool {
    match phase {
        Phase::AwaitingRequest => event is RequestReceived || event is Failed,
        Phase::AwaitingReply { .. } => event is ReplyReceived || event is Failed,
        Phase::Replying => event is ReplySent || event is Failed,
        Phase::Stopped { .. } => false,
    }
}

/// Whether a failure of `stage` ends the relay under `policy`.
pub open spec fn fatal(policy: FailurePolicy, stage: Stage) -> bool {
    stage == Stage::ReceiveRequest || policy == FailurePolicy::Abort
}

/// Where a failure of `stage` leaves the relay, and what it does next.
pub open spec fn after_failure(policy: FailurePolicy, stage: Stage) -> (Phase, ActionView) {
    if fatal(policy, stage) {
        (
            Phase::Stopped { error: RelayError::Io(stage) },
            ActionView::Stop { error: RelayError::Io(stage) },
        )
    } else {
        (Phase::AwaitingRequest, ActionView::ReceiveRequest)
    }
}

/// The relay's transition function: the phase that follows `phase` once
/// `event` is reported, and the operation to carry out next. `None` when
/// `event` is not an outcome of the operation pending in `phase`.
pub open spec fn transition(config: RelayConfig, phase: Phase, event: EventView) -> Option<
    (Phase, ActionView),
> {
    let limit = config.max_datagram_size as nat;
    match (phase, event) {
        (Phase::AwaitingRequest, EventView::RequestReceived { datagram, client }) => Some(
            (
                Phase::AwaitingReply { client },
                ActionView::Forward { payload: clipped(datagram, limit) },
            ),
        ),
        (Phase::AwaitingRequest, EventView::Failed) => Some(
            after_failure(config.policy, Stage::ReceiveRequest),
        ),
        (Phase::AwaitingReply { client }, EventView::ReplyReceived { datagram }) => Some(
            (Phase::Replying, ActionView::Reply { payload: clipped(datagram, limit), client }),
        ),
        (Phase::AwaitingReply { .. }, EventView::Failed) => Some(
            after_failure(config.policy, Stage::Forward),
        ),
        (Phase::Replying, EventView::ReplySent) => Some(
            (Phase::AwaitingRequest, ActionView::ReceiveRequest),
        ),
        (Phase::Replying, EventView::Failed) => Some(after_failure(config.policy, Stage::Reply)),
        _ => None,
    }
}

/// A relay between its socket operations.
pub struct Relay {
    config: RelayConfig,
    phase: Phase,
}

impl Relay {
    /// The settings the relay was started with.
    pub closed spec fn spec_config(&self) -> RelayConfig {
        self.config
    }

    /// The phase the relay is in.
    pub closed spec fn spec_phase(&self) -> Phase {
        self.phase
    }

    /// A relay at rest, together with its first operation: to wait for a
    /// client's datagram.
    pub fn start(config: RelayConfig) -> (started: (Relay, Action))
        ensures
            started.0.spec_config() == config,
            started.0.spec_phase() == Phase::AwaitingRequest,
            started.1@ == ActionView::ReceiveRequest,
    {
        (Relay { config, phase: Phase::AwaitingRequest }, Action::ReceiveRequest)
    }

    /// The settings the relay was started with.
    #[verifier::when_used_as_spec(spec_config)]
    pub fn config(&self) -> (config: RelayConfig)
        ensures
            config == self.spec_config(),
    {
        self.config
    }

    /// The phase the relay is in.
    #[verifier::when_used_as_spec(spec_phase)]
    pub fn phase(&self) -> (phase: Phase)
        ensures
            phase == self.spec_phase(),
    {
        self.phase
    }

    /// Whether the relay has ended.
    pub fn is_stopped(&self) -> (stopped: bool)
        ensures
            stopped == (self.spec_phase() is Stopped),
            stopped == (pending(self.spec_phase()) is None),
    {
        match self.phase {
            Phase::Stopped { .. } => true,
            _ => false,
        }
    }

    /// What a failure of the pending operation `stage` leads to.
    fn fail(&mut self, stage: Stage) -> (action: Action)
        ensures
            final(self).spec_config() == old(self).spec_config(),
            (final(self).spec_phase(), action@) == after_failure(
                old(self).spec_config().policy,
                stage,
            ),
    {
        let ends = match stage {
            Stage::ReceiveRequest => true,
            _ => match self.config.policy {
                FailurePolicy::Abort => true,
                FailurePolicy::DropExchange => false,
            },
        };
        if ends {
            let error = RelayError::Io(stage);
            self.phase = Phase::Stopped { error };
            Action::Stop { error }
        } else {
            self.phase = Phase::AwaitingRequest;
            Action::ReceiveRequest
        }
    }

    /// Takes the outcome of the pending operation and names the next one.
    ///
    /// The relay moves as [`transition`] says. An event that is no outcome of
    /// the pending operation is refused: the answer is `None` and the relay
    /// stays as it was.
    pub fn step(&mut self, event: Event) -> (next: Option<Action>)
        ensures
            final(self).spec_config() == old(self).spec_config(),
            next is Some <==> answers(old(self).spec_phase(), event@),
            match transition(old(self).spec_config(), old(self).spec_phase(), event@) {
                Some((phase, action)) => next matches Some(given) && given@ == action
                    && final(self).spec_phase() == phase,
                None => next is None && final(self).spec_phase() == old(self).spec_phase(),
            },
    {
        let limit = self.config.max_datagram_size;
        match self.phase {
            Phase::AwaitingRequest => match event {
                Event::RequestReceived { datagram, client } => {
                    self.phase = Phase::AwaitingReply { client };
                    Some(Action::Forward { payload: clip(datagram, limit) })
                },
                Event::Failed => Some(self.fail(Stage::ReceiveRequest)),
                _ => None,
            },
            Phase::AwaitingReply { client } => match event {
                Event::ReplyReceived { datagram } => {
                    self.phase = Phase::Replying;
                    Some(Action::Reply { payload: clip(datagram, limit), client })
                },
                Event::Failed => Some(self.fail(Stage::Forward)),
                _ => None,
            },
            Phase::Replying => match event {
                Event::ReplySent => {
                    self.phase = Phase::AwaitingRequest;
                    Some(Action::ReceiveRequest)
                },
                Event::Failed => Some(self.fail(Stage::Reply)),
                _ => None,
            },
            Phase::Stopped { .. } => None,
        }
    }
}

} // verus!
