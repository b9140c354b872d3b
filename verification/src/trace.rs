//! What the relay does over a whole run, and what holds of every run.
//!
//! [`run`] extends the single step of [`transition`] to a sequence of
//! reported events. The theorems below are stated over it: an answer goes
//! back unchanged, to the client that asked, requests reach the upstream in
//! the order in which they arrived, and nothing is read from the listener
//! while an answer is outstanding.

use vstd::prelude::*;
use crate::address::SocketAddress;
use crate::datagram::clipped;
use crate::relay::{
    after_failure, pending, transition, Action, ActionView, Event, EventView, FailurePolicy, Phase,
    Relay, RelayConfig,
};

verus! {

/// Where a relay that stands in `phase` ends up after the reported `events`,
/// and the operations it names on the way. Events that are refused leave no
/// trace.
pub open spec fn run(config: RelayConfig, phase: Phase, events: Seq<EventView>) -> (
    Phase,
    Seq<ActionView>,
)
    decreases events.len(),
{
    if events.len() == 0 {
        (phase, Seq::empty())
    } else {
        match transition(config, phase, events.first()) {
            Some((next, action)) => {
                let rest = run(config, next, events.drop_first());
                (rest.0, seq![action] + rest.1)
            },
            None => run(config, phase, events.drop_first()),
        }
    }
}

/// The events of a recorded run, each with its bytes as a sequence.
pub open spec fn event_views(events: Seq<Event>) -> Seq<EventView> {
    events.map_values(|event: Event| event@)
}

/// The operations of a recorded run, each with its bytes as a sequence.
pub open spec fn action_views(actions: Seq<Action>) -> Seq<ActionView> {
    actions.map_values(|action: Action| action@)
}

/// Feeds a recorded sequence of events to `relay`, one step per event, and
/// collects the operations it names. Events that the relay refuses are
/// skipped.
pub fn replay(relay: &mut Relay, events: Vec<Event>) -> (actions: Vec<Action>)
    ensures
        final(relay).spec_config() == old(relay).spec_config(),
        (final(relay).spec_phase(), action_views(actions@)) == run(
            old(relay).spec_config(),
            old(relay).spec_phase(),
            event_views(events@),
        ),
{
    let ghost config = relay.spec_config();
    let ghost start = relay.spec_phase();
    let ghost all = event_views(events@);
    let mut actions: Vec<Action> = Vec::new();
    assert(all.skip(0) =~= all);
    assert(action_views(actions@) + run(config, start, all).1 =~= run(config, start, all).1);
    for event in it: events
        invariant
            relay.spec_config() == config,
            all == event_views(events@),
            it.seq() == events@,
            run(config, start, all) == ({
                let rest = run(config, relay.spec_phase(), all.skip(it.index() as int));
                (rest.0, action_views(actions@) + rest.1)
            }),
    {
        let ghost before = relay.spec_phase();
        let ghost named = action_views(actions@);
        let ghost remaining = all.skip(it.index() as int);
        proof {
            assert(remaining.first() == event@);
            assert(remaining.drop_first() =~= all.skip(it.index() + 1));
        }
        match relay.step(event) {
            Some(action) => {
                actions.push(action);
                proof {
                    let rest = run(config, relay.spec_phase(), remaining.drop_first());
                    assert(action_views(actions@) =~= named + seq![action@]);
                    assert(named + (seq![action@] + rest.1) =~= (named + seq![action@]) + rest.1);
                }
            },
            None => {},
        }
    }
    proof {
        assert(all.skip(all.len() as int).len() == 0);
        assert(action_views(actions@) + Seq::<ActionView>::empty() =~= action_views(actions@));
    }
    actions
}

/// The payloads that `actions` send upstream, in the order in which they are
/// sent.
pub open spec fn forwarded(actions: Seq<ActionView>) -> Seq<Seq<u8>>
    decreases actions.len(),
{
    if actions.len() == 0 {
        Seq::empty()
    } else {
        match actions.first() {
            ActionView::Forward { payload } => seq![payload] + forwarded(actions.drop_first()),
            _ => forwarded(actions.drop_first()),
        }
    }
}

/// The replies that `actions` send to clients, each with its destination, in
/// the order in which they are sent.
pub open spec fn replied(actions: Seq<ActionView>) -> Seq<(SocketAddress, Seq<u8>)>
    decreases actions.len(),
{
    if actions.len() == 0 {
        Seq::empty()
    } else {
        match actions.first() {
            ActionView::Reply { payload, client } => seq![(client, payload)] + replied(
                actions.drop_first(),
            ),
            _ => replied(actions.drop_first()),
        }
    }
}

/// One exchange that runs to its end: `client` sends `request`, the upstream
/// answers with `reply`, and the reply is sent off.
pub ghost struct Exchange {
    pub request: Seq<u8>,
    pub client: SocketAddress,
    pub reply: Seq<u8>,
}

/// The events that the driver reports in the course of `exchange`.
pub open spec fn exchange_events(exchange: Exchange) -> Seq<EventView> {
    seq![
        EventView::RequestReceived { datagram: exchange.request, client: exchange.client },
        EventView::ReplyReceived { datagram: exchange.reply },
        EventView::ReplySent,
    ]
}

/// The operations that the relay names in the course of `exchange`: forward
/// the request, hand the answer to the client, wait for the next request.
pub open spec fn exchange_actions(config: RelayConfig, exchange: Exchange) -> Seq<ActionView> {
    let limit = config.max_datagram_size as nat;
    seq![
        ActionView::Forward { payload: clipped(exchange.request, limit) },
        ActionView::Reply { payload: clipped(exchange.reply, limit), client: exchange.client },
        ActionView::ReceiveRequest,
    ]
}

/// The events of `exchanges`, one exchange after the other.
pub open spec fn events_of(exchanges: Seq<Exchange>) -> Seq<EventView>
    decreases exchanges.len(),
{
    if exchanges.len() == 0 {
        Seq::empty()
    } else {
        exchange_events(exchanges.first()) + events_of(exchanges.drop_first())
    }
}

/// The operations of `exchanges`, one exchange after the other.
pub open spec fn actions_of(config: RelayConfig, exchanges: Seq<Exchange>) -> Seq<ActionView>
    decreases exchanges.len(),
{
    if exchanges.len() == 0 {
        Seq::empty()
    } else {
        exchange_actions(config, exchanges.first()) + actions_of(config, exchanges.drop_first())
    }
}

/// Running over `front + back` is running over `front` and then, from where
/// that ended, over `back`.
pub proof fn lemma_run_concat(
    config: RelayConfig,
    phase: Phase,
    front: Seq<EventView>,
    back: Seq<EventView>,
)
    ensures
        run(config, phase, front + back) == ({
            let first = run(config, phase, front);
            let second = run(config, first.0, back);
            (second.0, first.1 + second.1)
        }),
    decreases front.len(),
{
    let whole = front + back;
    if front.len() == 0 {
        assert(whole =~= back);
        assert(Seq::<ActionView>::empty() + run(config, phase, back).1 =~= run(
            config,
            phase,
            back,
        ).1);
    } else {
        assert(whole.first() == front.first());
        assert(whole.drop_first() =~= front.drop_first() + back);
        match transition(config, phase, front.first()) {
            Some((next, action)) => {
                lemma_run_concat(config, next, front.drop_first(), back);
                let first = run(config, next, front.drop_first());
                let second = run(config, first.0, back);
                assert(seq![action] + (first.1 + second.1) =~= (seq![action] + first.1)
                    + second.1);
            },
            None => {
                lemma_run_concat(config, phase, front.drop_first(), back);
            },
        }
    }
}

/// A relay at rest carries one exchange through and is at rest again.
pub proof fn lemma_one_exchange(config: RelayConfig, exchange: Exchange)
    ensures
        run(config, Phase::AwaitingRequest, exchange_events(exchange)) == (
            Phase::AwaitingRequest,
            exchange_actions(config, exchange),
        ),
{
    reveal_with_fuel(run, 4);
    let events = exchange_events(exchange);
    let after_request = events.drop_first();
    let after_reply = after_request.drop_first();
    let done = after_reply.drop_first();
    assert(done.len() == 0);
    let waiting = Phase::AwaitingReply { client: exchange.client };
    assert(run(config, Phase::Replying, after_reply).1 =~= seq![ActionView::ReceiveRequest]);
    assert(run(config, waiting, after_request).0 == Phase::AwaitingRequest);
    assert(run(config, waiting, after_request).1 =~= exchange_actions(
        config,
        exchange,
    ).drop_first());
    assert(run(config, Phase::AwaitingRequest, events).1 =~= exchange_actions(config, exchange));
}

/// A relay at rest carries any number of exchanges through, one after the
/// other, and is at rest again.
pub proof fn lemma_exchanges(config: RelayConfig, exchanges: Seq<Exchange>)
    ensures
        run(config, Phase::AwaitingRequest, events_of(exchanges)) == (
            Phase::AwaitingRequest,
            actions_of(config, exchanges),
        ),
    decreases exchanges.len(),
{
    if exchanges.len() > 0 {
        lemma_one_exchange(config, exchanges.first());
        lemma_exchanges(config, exchanges.drop_first());
        lemma_run_concat(
            config,
            Phase::AwaitingRequest,
            exchange_events(exchanges.first()),
            events_of(exchanges.drop_first()),
        );
    }
}

/// What is sent upstream in the course of `exchanges`: each request, cut at
/// the ceiling, in the order of the exchanges.
proof fn lemma_forwarded_of_exchanges(config: RelayConfig, exchanges: Seq<Exchange>)
    ensures
        forwarded(actions_of(config, exchanges)) == Seq::new(
            exchanges.len(),
            |i: int| clipped(exchanges[i].request, config.max_datagram_size as nat),
        ),
    decreases exchanges.len(),
{
    let limit = config.max_datagram_size as nat;
    let expected = Seq::new(exchanges.len(), |i: int| clipped(exchanges[i].request, limit));
    if exchanges.len() == 0 {
        assert(forwarded(actions_of(config, exchanges)) =~= expected);
    } else {
        let tail = exchanges.drop_first();
        lemma_forwarded_of_exchanges(config, tail);
        let head = exchange_actions(config, exchanges.first());
        let rest = actions_of(config, tail);
        let all = head + rest;
        let a1 = all.drop_first();
        let a2 = a1.drop_first();
        let a3 = a2.drop_first();
        assert(a3 =~= rest);
        assert(forwarded(a2) == forwarded(rest));
        assert(forwarded(a1) == forwarded(rest));
        assert(forwarded(all) == seq![clipped(exchanges.first().request, limit)] + forwarded(
            rest,
        ));
        assert(forwarded(all) =~= expected);
    }
}

/// What is sent to clients in the course of `exchanges`: each answer, cut at
/// the ceiling, to the client of its own exchange, in the order of the
/// exchanges.
proof fn lemma_replied_of_exchanges(config: RelayConfig, exchanges: Seq<Exchange>)
    ensures
        replied(actions_of(config, exchanges)) == Seq::new(
            exchanges.len(),
            |i: int|
                (exchanges[i].client, clipped(exchanges[i].reply, config.max_datagram_size as nat)),
        ),
    decreases exchanges.len(),
{
    let limit = config.max_datagram_size as nat;
    let expected = Seq::new(
        exchanges.len(),
        |i: int| (exchanges[i].client, clipped(exchanges[i].reply, limit)),
    );
    if exchanges.len() == 0 {
        assert(replied(actions_of(config, exchanges)) =~= expected);
    } else {
        let tail = exchanges.drop_first();
        lemma_replied_of_exchanges(config, tail);
        let head = exchange_actions(config, exchanges.first());
        let rest = actions_of(config, tail);
        let all = head + rest;
        let a1 = all.drop_first();
        let a2 = a1.drop_first();
        let a3 = a2.drop_first();
        assert(a3 =~= rest);
        assert(forall|i: int| 0 <= i < tail.len() ==> tail[i] == exchanges[i + 1]);
        assert(replied(a2) == replied(rest));
        assert(replied(a1) == seq![
            (exchanges.first().client, clipped(exchanges.first().reply, limit)),
        ] + replied(rest));
        assert(replied(all) == replied(a1));
        assert(replied(all) =~= expected);
    }
}

/// Round trip. When a client sends a request that fits the ceiling and the
/// upstream answers with a reply that fits it too, the request goes upstream
/// byte for byte and the reply goes back to that client byte for byte.
pub proof fn lemma_round_trip(
    config: RelayConfig,
    request: Seq<u8>,
    client: SocketAddress,
    reply: Seq<u8>,
)
    requires
        request.len() <= config.max_datagram_size,
        reply.len() <= config.max_datagram_size,
    ensures
        run(
            config,
            Phase::AwaitingRequest,
            seq![
                EventView::RequestReceived { datagram: request, client },
                EventView::ReplyReceived { datagram: reply },
            ],
        ) == (
            Phase::Replying,
            seq![
                ActionView::Forward { payload: request },
                ActionView::Reply { payload: reply, client },
            ],
        ),
{
    let events = seq![
        EventView::RequestReceived { datagram: request, client },
        EventView::ReplyReceived { datagram: reply },
    ];
    reveal_with_fuel(run, 3);
    let after_request = events.drop_first();
    assert(after_request.drop_first().len() == 0);
    let waiting = Phase::AwaitingReply { client };
    assert(run(config, waiting, after_request).1 =~= seq![
        ActionView::Reply { payload: reply, client },
    ]);
    assert(run(config, Phase::AwaitingRequest, events).1 =~= seq![
        ActionView::Forward { payload: request },
        ActionView::Reply { payload: reply, client },
    ]);
}

/// Address fidelity. Over any number of exchanges, the relay sends exactly
/// one reply per exchange, and the reply of each exchange goes to the client
/// of that exchange and carries the answer that the upstream gave to that
/// client's request, never another's.
pub proof fn lemma_replies_reach_their_clients(config: RelayConfig, exchanges: Seq<Exchange>)
    ensures
        replied(run(config, Phase::AwaitingRequest, events_of(exchanges)).1).len()
            == exchanges.len(),
        forall|i: int|
            0 <= i < exchanges.len() ==> #[trigger] replied(
                run(config, Phase::AwaitingRequest, events_of(exchanges)).1,
            )[i] == (
                exchanges[i].client,
                clipped(exchanges[i].reply, config.max_datagram_size as nat),
            ),
{
    lemma_exchanges(config, exchanges);
    lemma_replied_of_exchanges(config, exchanges);
}

/// Address fidelity for two clients. When requests of two distinct clients
/// arrive one after the other, the first reply goes to the first client with
/// the answer to the first request, and the second reply to the second client
/// with the answer to the second request.
pub proof fn lemma_two_clients(config: RelayConfig, first: Exchange, second: Exchange)
    requires
        first.client != second.client,
    ensures
        replied(run(config, Phase::AwaitingRequest, events_of(seq![first, second])).1) == seq![
            (first.client, clipped(first.reply, config.max_datagram_size as nat)),
            (second.client, clipped(second.reply, config.max_datagram_size as nat)),
        ],
{
    let exchanges = seq![first, second];
    lemma_replies_reach_their_clients(config, exchanges);
    let got = replied(run(config, Phase::AwaitingRequest, events_of(exchanges)).1);
    assert(got[0] == (exchanges[0].client, clipped(exchanges[0].reply, config.max_datagram_size as nat)));
    assert(got[1] == (exchanges[1].client, clipped(exchanges[1].reply, config.max_datagram_size as nat)));
    assert(got =~= seq![
        (first.client, clipped(first.reply, config.max_datagram_size as nat)),
        (second.client, clipped(second.reply, config.max_datagram_size as nat)),
    ]);
}

/// Address fidelity under load. Whatever further requests are reported
/// between a client's request and the upstream's answer, they are not taken,
/// and the answer still goes to the client that asked, and to nobody else.
pub proof fn lemma_reply_goes_to_the_asking_client(
    config: RelayConfig,
    request: Seq<u8>,
    client: SocketAddress,
    meanwhile: Seq<EventView>,
    reply: Seq<u8>,
)
    requires
        forall|i: int|
            0 <= i < meanwhile.len() ==> meanwhile[i] is RequestReceived
                || meanwhile[i] is ReplySent,
    ensures
        run(
            config,
            Phase::AwaitingRequest,
            seq![EventView::RequestReceived { datagram: request, client }] + meanwhile
                + seq![EventView::ReplyReceived { datagram: reply }],
        ) == (
            Phase::Replying,
            seq![
                ActionView::Forward { payload: clipped(request, config.max_datagram_size as nat) },
                ActionView::Reply {
                    payload: clipped(reply, config.max_datagram_size as nat),
                    client,
                },
            ],
        ),
{
    reveal_with_fuel(run, 2);
    let limit = config.max_datagram_size as nat;
    let asked = seq![EventView::RequestReceived { datagram: request, client }];
    let answered = seq![EventView::ReplyReceived { datagram: reply }];
    let waiting = Phase::AwaitingReply { client };
    assert(asked.drop_first().len() == 0);
    assert(answered.drop_first().len() == 0);
    assert(run(config, Phase::AwaitingRequest, asked).1 =~= seq![
        ActionView::Forward { payload: clipped(request, limit) },
    ]);
    assert(run(config, waiting, answered).1 =~= seq![
        ActionView::Reply { payload: clipped(reply, limit), client },
    ]);
    lemma_stalls_until_upstream_answers(config, client, meanwhile);
    lemma_run_concat(config, Phase::AwaitingRequest, asked, meanwhile);
    lemma_run_concat(config, Phase::AwaitingRequest, asked + meanwhile, answered);
    let got = run(config, Phase::AwaitingRequest, asked + meanwhile + answered);
    assert(got.1 =~= seq![
        ActionView::Forward { payload: clipped(request, limit) },
        ActionView::Reply { payload: clipped(reply, limit), client },
    ]);
}

/// Sequential ordering. Over any number of exchanges, the requests reach the
/// upstream in the order in which they arrived, one per exchange, each cut at
/// the ceiling and otherwise unchanged.
pub proof fn lemma_requests_forwarded_in_order(config: RelayConfig, exchanges: Seq<Exchange>)
    ensures
        forwarded(run(config, Phase::AwaitingRequest, events_of(exchanges)).1).len()
            == exchanges.len(),
        forall|i: int|
            0 <= i < exchanges.len() ==> #[trigger] forwarded(
                run(config, Phase::AwaitingRequest, events_of(exchanges)).1,
            )[i] == clipped(exchanges[i].request, config.max_datagram_size as nat),
{
    lemma_exchanges(config, exchanges);
    lemma_forwarded_of_exchanges(config, exchanges);
}

/// Upstream unavailability. While the answer to a request is outstanding the
/// relay stalls: whatever arrives in the meantime that is neither the answer
/// nor a failure of the upstream socket, the relay stays where it is and
/// names no operation. In particular it takes no further request.
pub proof fn lemma_stalls_until_upstream_answers(
    config: RelayConfig,
    client: SocketAddress,
    events: Seq<EventView>,
)
    requires
        forall|i: int|
            0 <= i < events.len() ==> events[i] is RequestReceived || events[i] is ReplySent,
    ensures
        run(config, Phase::AwaitingReply { client }, events) == (
            Phase::AwaitingReply { client },
            Seq::<ActionView>::empty(),
        ),
    decreases events.len(),
{
    if events.len() > 0 {
        assert(events.first() == events[0]);
        let tail = events.drop_first();
        assert(forall|i: int| 0 <= i < tail.len() ==> tail[i] == events[i + 1]);
        lemma_stalls_until_upstream_answers(config, client, tail);
    }
}

/// Oversized payload. A request longer than the ceiling goes upstream as
/// exactly its first `max_datagram_size` bytes.
pub proof fn lemma_oversized_request_is_cut(
    config: RelayConfig,
    request: Seq<u8>,
    client: SocketAddress,
)
    requires
        request.len() > config.max_datagram_size,
    ensures
        transition(
            config,
            Phase::AwaitingRequest,
            EventView::RequestReceived { datagram: request, client },
        ) == Some(
            (
                Phase::AwaitingReply { client },
                ActionView::Forward { payload: request.take(config.max_datagram_size as int) },
            ),
        ),
        request.take(config.max_datagram_size as int).len() == config.max_datagram_size,
{
}

/// Under [`FailurePolicy::Abort`] the failure of any pending operation ends
/// the relay with an I/O error for that operation, and nothing that is
/// reported afterwards brings it back.
pub proof fn lemma_failure_ends_relay(config: RelayConfig, phase: Phase, events: Seq<EventView>)
    requires
        config.policy == FailurePolicy::Abort,
        pending(phase) is Some,
    ensures
        run(config, phase, seq![EventView::Failed] + events) == (
            after_failure(config.policy, pending(phase)->0).0,
            seq![after_failure(config.policy, pending(phase)->0).1],
        ),
        after_failure(config.policy, pending(phase)->0).0 is Stopped,
{
    let whole = seq![EventView::Failed] + events;
    assert(whole.first() == EventView::Failed);
    assert(whole.drop_first() =~= events);
    let ended = after_failure(config.policy, pending(phase)->0);
    lemma_stopped_is_final(config, ended.0, events);
    assert(seq![ended.1] + Seq::<ActionView>::empty() =~= seq![ended.1]);
}

/// A failure to read from the listener ends the relay under either policy.
pub proof fn lemma_listener_failure_ends_relay(config: RelayConfig, events: Seq<EventView>)
    ensures
        run(config, Phase::AwaitingRequest, seq![EventView::Failed] + events).0 is Stopped,
        run(config, Phase::AwaitingRequest, seq![EventView::Failed] + events).1.len() == 1,
{
    let whole = seq![EventView::Failed] + events;
    assert(whole.first() == EventView::Failed);
    assert(whole.drop_first() =~= events);
    let ended = transition(config, Phase::AwaitingRequest, EventView::Failed)->0;
    lemma_stopped_is_final(config, ended.0, events);
}

/// Under [`FailurePolicy::DropExchange`] a failure while forwarding or
/// replying costs that one exchange only: its client gets no reply, the
/// relay is at rest again, and the exchanges that follow run as ever.
pub proof fn lemma_lost_exchange_is_isolated(
    config: RelayConfig,
    phase: Phase,
    exchanges: Seq<Exchange>,
)
    requires
        config.policy == FailurePolicy::DropExchange,
        phase is AwaitingReply || phase is Replying,
    ensures
        run(config, phase, seq![EventView::Failed] + events_of(exchanges)) == (
            Phase::AwaitingRequest,
            seq![ActionView::ReceiveRequest] + actions_of(config, exchanges),
        ),
{
    let failure = seq![EventView::Failed];
    assert(failure.drop_first().len() == 0);
    reveal_with_fuel(run, 2);
    assert(run(config, phase, failure).1 =~= seq![ActionView::ReceiveRequest]);
    lemma_run_concat(config, phase, failure, events_of(exchanges));
    lemma_exchanges(config, exchanges);
}

/// A relay that has stopped stays stopped: whatever is reported afterwards,
/// it names no operation.
pub proof fn lemma_stopped_is_final(
    config: RelayConfig,
    phase: Phase,
    events: Seq<EventView>,
)
    requires
        phase is Stopped,
    ensures
        run(config, phase, events) == (phase, Seq::<ActionView>::empty()),
    decreases events.len(),
{
    if events.len() > 0 {
        lemma_stopped_is_final(config, phase, events.drop_first());
    }
}

} // verus!
