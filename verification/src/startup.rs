//! Bringing up the relay's two sockets.
//!
//! The listener is bound to the configured local address. The sender is
//! bound to an ephemeral local port and then connected to the upstream peer,
//! so that later sends and receives on it need no address. Both configured
//! addresses are checked before any socket is touched, and the first failure
//! of any kind ends the start-up: there is no retry, because the addresses do
//! not change while the process lives.
//!
//! [`Startup`] follows the same pattern as the relay itself: the driver
//! performs the [`StartupAction`] it is given and reports the
//! [`SocketOutcome`].

use vstd::prelude::*;
use crate::address::SocketAddress;
use crate::error::{Endpoint, RelayError};

verus! {

/// How far the start-up has come.
#[derive(Clone, Copy, Debug, PartialEq, Eq, Structural)]
pub enum StartupPhase {
    /// The listener is being bound.
    BindingListener,
    /// The listener is bound; the sender is being bound.
    BindingSender,
    /// Both sockets are bound; the sender is being connected to the upstream.
    ConnectingSender,
    /// Both sockets are ready for the relay loop.
    Ready,
    /// The start-up has failed with `error`.
    Failed { error: RelayError },
}

/// The socket operation that the driver is to carry out next.
#[derive(Clone, Copy, Debug, PartialEq, Eq, Structural)]
pub enum StartupAction {
    /// Bind the listener to `local`.
    BindListener { local: SocketAddress },
    /// Bind the sender to `local`.
    BindSender { local: SocketAddress },
    /// Make `peer` the sender's fixed peer.
    ConnectSender { peer: SocketAddress },
    /// Enter the relay loop.
    Run,
    /// Give up and report `error`.
    Abort { error: RelayError },
}

/// Whether a socket operation of the start-up succeeded.
#[derive(Clone, Copy, Debug, PartialEq, Eq, Structural)]
pub enum SocketOutcome {
    Done,
    Failed,
}

/// The socket that the operation pending in `phase` sets up, if any.
pub open spec fn socket_in_progress(phase: StartupPhase) -> Option<Endpoint> {
    match phase {
        StartupPhase::BindingListener => Some(Endpoint::Listener),
        StartupPhase::BindingSender => Some(Endpoint::Upstream),
        StartupPhase::ConnectingSender => Some(Endpoint::Upstream),
        StartupPhase::Ready => None,
        StartupPhase::Failed { .. } => None,
    }
}

/// The phase and operation that follow the success of the operation pending
/// in `phase`. `None` once the start-up is over.
pub open spec fn after_success(upstream: SocketAddress, phase: StartupPhase) -> Option<
    (StartupPhase, StartupAction),
> {
    match phase {
        StartupPhase::BindingListener => Some(
            (
                StartupPhase::BindingSender,
                StartupAction::BindSender { local: SocketAddress::V4 { ip: 0, port: 0 } },
            ),
        ),
        StartupPhase::BindingSender => Some(
            (StartupPhase::ConnectingSender, StartupAction::ConnectSender { peer: upstream }),
        ),
        StartupPhase::ConnectingSender => Some((StartupPhase::Ready, StartupAction::Run)),
        StartupPhase::Ready => None,
        StartupPhase::Failed { .. } => None,
    }
}

/// The start-up's transition function. A failed operation ends the start-up
/// with a bind error for the socket it was setting up. `None` once the
/// start-up is over, whatever is reported.
pub open spec fn startup_transition(
    upstream: SocketAddress,
    phase: StartupPhase,
    outcome: SocketOutcome,
) -> Option<(StartupPhase, StartupAction)> {
    match outcome {
        SocketOutcome::Done => after_success(upstream, phase),
        SocketOutcome::Failed => match socket_in_progress(phase) {
            Some(endpoint) => Some(
                (
                    StartupPhase::Failed { error: RelayError::Bind(endpoint) },
                    StartupAction::Abort { error: RelayError::Bind(endpoint) },
                ),
            ),
            None => None,
        },
    }
}

/// What [`Startup::begin`] answers for the two configured addresses, each
/// `None` where its text could not be read as a socket address.
pub open spec fn checked_addresses(
    listen: Option<SocketAddress>,
    upstream: Option<SocketAddress>,
) -> Result<(SocketAddress, SocketAddress), RelayError> {
    match (listen, upstream) {
        (None, _) => Err(RelayError::AddressParse(Endpoint::Listener)),
        (Some(_), None) => Err(RelayError::AddressParse(Endpoint::Upstream)),
        (Some(local), Some(peer)) => Ok((local, peer)),
    }
}

/// A start-up between its socket operations.
pub struct Startup {
    upstream: SocketAddress,
    phase: StartupPhase,
}

impl Startup {
    /// The upstream peer that the sender is to be connected to.
    pub closed spec fn spec_upstream(&self) -> SocketAddress {
        self.upstream
    }

    /// How far the start-up has come.
    pub closed spec fn spec_phase(&self) -> StartupPhase {
        self.phase
    }

    /// Checks the configured addresses and, if both are well formed, names
    /// the first operation: to bind the listener.
    ///
    /// An address is passed as `None` when its text is malformed. The check
    /// comes before any socket operation, the listener's address first.
    pub fn begin(listen: Option<SocketAddress>, upstream: Option<SocketAddress>) -> (begun: Result<
        (Startup, StartupAction),
        RelayError,
    >)
        ensures
            match checked_addresses(listen, upstream) {
                Ok((local, peer)) => begun matches Ok((startup, action))
                    && startup.spec_upstream() == peer
                    && startup.spec_phase() == StartupPhase::BindingListener
                    && action == (StartupAction::BindListener { local }),
                Err(error) => begun matches Err(given) && given == error,
            },
    {
        let local = match listen {
            Some(local) => local,
            None => {
                return Err(RelayError::AddressParse(Endpoint::Listener));
            },
        };
        let peer = match upstream {
            Some(peer) => peer,
            None => {
                return Err(RelayError::AddressParse(Endpoint::Upstream));
            },
        };
        Ok(
            (
                Startup { upstream: peer, phase: StartupPhase::BindingListener },
                StartupAction::BindListener { local },
            ),
        )
    }

    /// The upstream peer that the sender is to be connected to.
    #[verifier::when_used_as_spec(spec_upstream)]
    pub fn upstream(&self) -> (peer: SocketAddress)
        ensures
            peer == self.spec_upstream(),
    {
        self.upstream
    }

    /// How far the start-up has come.
    #[verifier::when_used_as_spec(spec_phase)]
    pub fn phase(&self) -> (phase: StartupPhase)
        ensures
            phase == self.spec_phase(),
    {
        self.phase
    }

    /// Takes the outcome of the pending operation and names the next one.
    ///
    /// The start-up moves as [`startup_transition`] says. Once it is over,
    /// ready or failed, nothing is pending: the answer is `None` and nothing
    /// changes.
    pub fn step(&mut self, outcome: SocketOutcome) -> (next: Option<StartupAction>)
        ensures
            final(self).spec_upstream() == old(self).spec_upstream(),
            next is Some <==> socket_in_progress(old(self).spec_phase()) is Some,
            match startup_transition(old(self).spec_upstream(), old(self).spec_phase(), outcome) {
                Some((phase, action)) => next == Some(action) && final(self).spec_phase() == phase,
                None => next is None && final(self).spec_phase() == old(self).spec_phase(),
            },
    {
        let endpoint = match self.phase {
            StartupPhase::BindingListener => Endpoint::Listener,
            StartupPhase::BindingSender => Endpoint::Upstream,
            StartupPhase::ConnectingSender => Endpoint::Upstream,
            StartupPhase::Ready => {
                return None;
            },
            StartupPhase::Failed { .. } => {
                return None;
            },
        };
        match outcome {
            SocketOutcome::Failed => {
                let error = RelayError::Bind(endpoint);
                self.phase = StartupPhase::Failed { error };
                Some(StartupAction::Abort { error })
            },
            SocketOutcome::Done => match self.phase {
                StartupPhase::BindingListener => {
                    self.phase = StartupPhase::BindingSender;
                    Some(StartupAction::BindSender { local: SocketAddress::ephemeral() })
                },
                StartupPhase::BindingSender => {
                    self.phase = StartupPhase::ConnectingSender;
                    Some(StartupAction::ConnectSender { peer: self.upstream })
                },
                _ => {
                    self.phase = StartupPhase::Ready;
                    Some(StartupAction::Run)
                },
            },
        }
    }
}

/// How many socket operations are still to succeed, from `phase` on, before
/// the relay loop is entered.
pub open spec fn steps_left(phase: StartupPhase) -> nat {
    match phase {
        StartupPhase::BindingListener => 3,
        StartupPhase::BindingSender => 2,
        StartupPhase::ConnectingSender => 1,
        StartupPhase::Ready => 0,
        StartupPhase::Failed { .. } => 0,
    }
}

/// Where a start-up that stands in `phase` ends up after the reported
/// `outcomes`, and the operations it names on the way. Reports that arrive
/// once the start-up is over are refused and leave no trace.
pub open spec fn startup_run(
    upstream: SocketAddress,
    phase: StartupPhase,
    outcomes: Seq<SocketOutcome>,
) -> (StartupPhase, Seq<StartupAction>)
    decreases outcomes.len(),
{
    if outcomes.len() == 0 {
        (phase, Seq::empty())
    } else {
        match startup_transition(upstream, phase, outcomes.first()) {
            Some((next, action)) => {
                let rest = startup_run(upstream, next, outcomes.drop_first());
                (rest.0, seq![action] + rest.1)
            },
            None => startup_run(upstream, phase, outcomes.drop_first()),
        }
    }
}

/// A start-up that is over stays over: whatever is reported afterwards, the
/// phase does not change and no operation is named.
pub proof fn lemma_startup_over(
    upstream: SocketAddress,
    phase: StartupPhase,
    outcomes: Seq<SocketOutcome>,
)
    requires
        socket_in_progress(phase) is None,
    ensures
        startup_run(upstream, phase, outcomes) == (phase, Seq::<StartupAction>::empty()),
    decreases outcomes.len(),
{
    if outcomes.len() > 0 {
        lemma_startup_over(upstream, phase, outcomes.drop_first());
    }
}

/// When binding the listener fails, the start-up ends with a bind error for
/// the listener and the relay loop is never entered: the one operation named
/// is to give up, whatever is reported afterwards.
pub proof fn lemma_listener_bind_failure_is_fatal(
    upstream: SocketAddress,
    outcomes: Seq<SocketOutcome>,
)
    requires
        outcomes.len() > 0,
        outcomes.first() == SocketOutcome::Failed,
    ensures
        startup_run(upstream, StartupPhase::BindingListener, outcomes) == (
            StartupPhase::Failed { error: RelayError::Bind(Endpoint::Listener) },
            seq![StartupAction::Abort { error: RelayError::Bind(Endpoint::Listener) }],
        ),
        !startup_run(upstream, StartupPhase::BindingListener, outcomes).1.contains(
            StartupAction::Run,
        ),
{
    let failed = StartupPhase::Failed { error: RelayError::Bind(Endpoint::Listener) };
    lemma_startup_over(upstream, failed, outcomes.drop_first());
    let actions = startup_run(upstream, StartupPhase::BindingListener, outcomes).1;
    assert(actions =~= seq![StartupAction::Abort { error: RelayError::Bind(Endpoint::Listener) }]);
    assert(forall|i: int| 0 <= i < actions.len() ==> actions[i] != StartupAction::Run);
}

/// The operations named from `phase` on hold `Run` exactly when as many
/// leading outcomes as there are operations left all succeeded.
proof fn lemma_run_from(upstream: SocketAddress, phase: StartupPhase, outcomes: Seq<SocketOutcome>)
    ensures
        startup_run(upstream, phase, outcomes).1.contains(StartupAction::Run) <==> (
        socket_in_progress(phase) is Some && outcomes.len() >= steps_left(phase) && forall|i: int|
            0 <= i < steps_left(phase) ==> outcomes[i] == SocketOutcome::Done),
        startup_run(upstream, phase, outcomes).0 is Ready <==> (phase is Ready || startup_run(
            upstream,
            phase,
            outcomes,
        ).1.contains(StartupAction::Run)),
    decreases outcomes.len(),
{
    let run = startup_run(upstream, phase, outcomes);
    if socket_in_progress(phase) is None {
        lemma_startup_over(upstream, phase, outcomes);
    } else if outcomes.len() == 0 {
    } else {
        let (next, action) = startup_transition(upstream, phase, outcomes.first())->0;
        let tail = outcomes.drop_first();
        let rest = startup_run(upstream, next, tail);
        lemma_run_from(upstream, next, tail);
        assert(run.1 == seq![action] + rest.1);
        assert(run.1[0] == action);
        assert(forall|i: int| 0 <= i < rest.1.len() ==> rest.1[i] == run.1[i + 1]);
        assert(forall|i: int| 0 <= i < tail.len() ==> tail[i] == outcomes[i + 1]);
        if outcomes.first() == SocketOutcome::Failed {
            lemma_startup_over(upstream, next, tail);
        } else if rest.1.contains(StartupAction::Run) {
            let i = choose|i: int| 0 <= i < rest.1.len() && rest.1[i] == StartupAction::Run;
            assert(run.1[i + 1] == StartupAction::Run);
            assert forall|i: int| 0 <= i < steps_left(phase) implies outcomes[i]
                == SocketOutcome::Done by {
                if i > 0 {
                    assert(tail[i - 1] == outcomes[i]);
                }
            }
        } else if action == StartupAction::Run {
        } else {
            if outcomes.len() >= steps_left(phase) && forall|i: int|
                0 <= i < steps_left(phase) ==> outcomes[i] == SocketOutcome::Done {
                assert(forall|i: int| 0 <= i < steps_left(next) ==> tail[i] == outcomes[i + 1]);
                assert(false);
            }
            if run.1.contains(StartupAction::Run) {
                let i = choose|i: int| 0 <= i < run.1.len() && run.1[i] == StartupAction::Run;
                assert(rest.1[i - 1] == StartupAction::Run);
                assert(false);
            }
        }
    }
}

/// The relay loop is entered exactly when the first three reported
/// operations all succeeded: binding the listener, binding the sender and
/// connecting the sender.
pub proof fn lemma_runs_iff_all_sockets_ready(
    upstream: SocketAddress,
    outcomes: Seq<SocketOutcome>,
)
    ensures
        startup_run(upstream, StartupPhase::BindingListener, outcomes).1.contains(
            StartupAction::Run,
        ) <==> (outcomes.len() >= 3 && outcomes[0] == SocketOutcome::Done && outcomes[1]
            == SocketOutcome::Done && outcomes[2] == SocketOutcome::Done),
        startup_run(upstream, StartupPhase::BindingListener, outcomes).0 is Ready
            <==> startup_run(upstream, StartupPhase::BindingListener, outcomes).1.contains(
            StartupAction::Run,
        ),
{
    lemma_run_from(upstream, StartupPhase::BindingListener, outcomes);
}

} // verus!
