//! The client side: a per-target state machine that turns an unreliable
//! datagram transport into a request with a bounded number of attempts
//! and well-defined failure modes, and the aggregation of per-target
//! results under each target's failsafe policy.
//!
//! The machine decides; the caller performs the transport actions it
//! asks for (resolve, bind, send, receive) and feeds back what happened.
use vstd::prelude::*;

use crate::config::TargetSettings;
use crate::error::WhereError;
use crate::{sessions_view, spec_decode, Session, SessionCollection, SessionV};

verus! {

/// One target's progress through its exchange.
pub enum ClientState {
    /// Resolving the endpoint; after a first failure it is retried once
    /// with the default port appended.
    Resolving { retried_with_port: bool },
    /// Opening and configuring the target's socket.
    Binding,
    /// About to transmit the probe; `sent` probes went out so far.
    Sending { sent: usize },
    /// Waiting for a reply to the `sent`-th probe.
    Awaiting { sent: usize },
    /// A reply arrived and decoded; the exchange is over.
    Succeeded(SessionCollection),
    /// Every attempt timed out; carries the timeout condition.
    Exhausted(WhereError),
    /// A resolution, transport or decode failure ended the exchange.
    Fatal(WhereError),
}

/// What happened when the caller performed the requested action.
pub enum ClientEvent {
    /// The endpoint resolved to an address.
    Resolved,
    /// Resolution failed, or found no usable address.
    ResolveFailed,
    /// The socket is bound and its receive timeout is set.
    BoundOk,
    /// The socket could not be opened or configured.
    BindFailed,
    /// The probe went out.
    SentOk,
    /// The probe could not be sent.
    SendFailed,
    /// A reply datagram arrived with these bytes.
    Reply(Vec<u8>),
    /// The receive wait ran out.
    RecvTimedOut,
    /// Receiving failed for another reason.
    RecvFailed,
}

/// What the machine asks the caller to do next.
pub enum ClientAction {
    /// Resolve the endpoint as configured.
    Resolve,
    /// Resolve the endpoint with the default port appended.
    ResolveWithPort,
    /// Open the socket and set its receive timeout.
    Bind,
    /// Transmit the probe.
    Send,
    /// Wait for a reply, at most one timeout long.
    Receive,
    /// The exchange is over; stop.
    Stop,
}

/// A state with its payloads erased: what the retry discipline alone
/// sees.
pub enum ClientPhaseV {
    Resolving { retried_with_port: bool },
    Binding,
    Sending { sent: usize },
    Awaiting { sent: usize },
    Succeeded,
    Exhausted,
    Fatal,
}

/// An event with its payloads erased; a reply is kept only as valid or
/// invalid under the target's label.
pub enum ClientEventV {
    Resolved,
    ResolveFailed,
    BoundOk,
    BindFailed,
    SentOk,
    SendFailed,
    ReplyValid,
    ReplyInvalid,
    RecvTimedOut,
    RecvFailed,
}

/// The phase a state is in.
pub open spec fn phase_of(s: ClientState) -> ClientPhaseV {
    match s {
        ClientState::Resolving { retried_with_port } => ClientPhaseV::Resolving {
            retried_with_port,
        },
        ClientState::Binding => ClientPhaseV::Binding,
        ClientState::Sending { sent } => ClientPhaseV::Sending { sent },
        ClientState::Awaiting { sent } => ClientPhaseV::Awaiting { sent },
        ClientState::Succeeded(_) => ClientPhaseV::Succeeded,
        ClientState::Exhausted(_) => ClientPhaseV::Exhausted,
        ClientState::Fatal(_) => ClientPhaseV::Fatal,
    }
}

/// The erased view of an event, under the label the decoder would use.
pub open spec fn spec_event_view(e: ClientEvent, label: Seq<char>) -> ClientEventV {
    match e {
        ClientEvent::Resolved => ClientEventV::Resolved,
        ClientEvent::ResolveFailed => ClientEventV::ResolveFailed,
        ClientEvent::BoundOk => ClientEventV::BoundOk,
        ClientEvent::BindFailed => ClientEventV::BindFailed,
        ClientEvent::SentOk => ClientEventV::SentOk,
        ClientEvent::SendFailed => ClientEventV::SendFailed,
        ClientEvent::Reply(buf) => if spec_decode(buf@, label) is Ok {
            ClientEventV::ReplyValid
        } else {
            ClientEventV::ReplyInvalid
        },
        ClientEvent::RecvTimedOut => ClientEventV::RecvTimedOut,
        ClientEvent::RecvFailed => ClientEventV::RecvFailed,
    }
}

/// The retry discipline itself, one transition at a time. An event that
/// does not belong to the current phase leaves it unchanged, and a
/// terminal phase stays where it is.
pub open spec fn spec_client_step(p: ClientPhaseV, e: ClientEventV, max_retries: usize) -> ClientPhaseV {
    match (p, e) {
        (ClientPhaseV::Resolving { retried_with_port: _ }, ClientEventV::Resolved) => ClientPhaseV::Binding,
        (
            ClientPhaseV::Resolving { retried_with_port: false },
            ClientEventV::ResolveFailed,
        ) => ClientPhaseV::Resolving { retried_with_port: true },
        (ClientPhaseV::Resolving { retried_with_port: true }, ClientEventV::ResolveFailed) => ClientPhaseV::Fatal,
        (ClientPhaseV::Binding, ClientEventV::BoundOk) => if max_retries == 0 {
            ClientPhaseV::Exhausted
        } else {
            ClientPhaseV::Sending { sent: 0 }
        },
        (ClientPhaseV::Binding, ClientEventV::BindFailed) => ClientPhaseV::Fatal,
        (ClientPhaseV::Sending { sent }, ClientEventV::SentOk) => ClientPhaseV::Awaiting {
            sent: (if sent < usize::MAX {
                (sent + 1) as usize
            } else {
                sent
            }),
        },
        (ClientPhaseV::Sending { sent: _ }, ClientEventV::SendFailed) => ClientPhaseV::Fatal,
        (ClientPhaseV::Awaiting { sent: _ }, ClientEventV::ReplyValid) => ClientPhaseV::Succeeded,
        (ClientPhaseV::Awaiting { sent: _ }, ClientEventV::ReplyInvalid) => ClientPhaseV::Fatal,
        (ClientPhaseV::Awaiting { sent }, ClientEventV::RecvTimedOut) => if sent < max_retries {
            ClientPhaseV::Sending { sent }
        } else {
            ClientPhaseV::Exhausted
        },
        (ClientPhaseV::Awaiting { sent: _ }, ClientEventV::RecvFailed) => ClientPhaseV::Fatal,
        (other, _) => other,
    }
}

/// The action each phase asks of the caller.
pub open spec fn spec_client_action(p: ClientPhaseV) -> ClientAction {
    match p {
        ClientPhaseV::Resolving { retried_with_port: false } => ClientAction::Resolve,
        ClientPhaseV::Resolving { retried_with_port: true } => ClientAction::ResolveWithPort,
        ClientPhaseV::Binding => ClientAction::Bind,
        ClientPhaseV::Sending { sent: _ } => ClientAction::Send,
        ClientPhaseV::Awaiting { sent: _ } => ClientAction::Receive,
        ClientPhaseV::Succeeded => ClientAction::Stop,
        ClientPhaseV::Exhausted => ClientAction::Stop,
        ClientPhaseV::Fatal => ClientAction::Stop,
    }
}

/// What the machine asks the caller to do in this state.
pub fn client_action(state: &ClientState) -> (r: ClientAction)
    ensures
        r == spec_client_action(phase_of(*state)),
{
    match state {
        ClientState::Resolving { retried_with_port: false } => ClientAction::Resolve,
        ClientState::Resolving { retried_with_port: true } => ClientAction::ResolveWithPort,
        ClientState::Binding => ClientAction::Bind,
        ClientState::Sending { sent: _ } => ClientAction::Send,
        ClientState::Awaiting { sent: _ } => ClientAction::Receive,
        ClientState::Succeeded(_) => ClientAction::Stop,
        ClientState::Exhausted(_) => ClientAction::Stop,
        ClientState::Fatal(_) => ClientAction::Stop,
    }
}

/// One transition of a target's exchange. The caller hands in what its
/// last action produced, together with the target's endpoint, the
/// resolved address (empty until resolution), and the target's settings;
/// the machine decides what the exchange does next:
///
/// - a decoded reply ends it with the sessions, labeled with the
///   target's label, and a garbled reply is fatal, never retried;
/// - a timeout either sends again on the same socket or, once
///   `max_retries` probes have gone unanswered, ends it with a timeout
///   condition carrying the endpoint, the address, the attempt count and
///   the per-attempt timeout;
/// - resolution, bind, send and receive failures are fatal.
pub fn client_step(
    state: ClientState,
    event: ClientEvent,
    endpoint: &str,
    address: &str,
    settings: &TargetSettings,
) -> (r: ClientState)
    ensures
        phase_of(r) == spec_client_step(
            phase_of(state),
            spec_event_view(event, settings.label@),
            settings.max_retries,
        ),
        (match (state, event) {
            (ClientState::Awaiting { sent: _ }, ClientEvent::Reply(buf)) => (match spec_decode(
                buf@,
                settings.label@,
            ) {
                Ok(ss) => r matches ClientState::Succeeded(c) && c@ == ss,
                Err(e) => r == ClientState::Fatal(e),
            }),
            (ClientState::Awaiting { sent }, ClientEvent::RecvTimedOut) => sent
                >= settings.max_retries ==> (r matches ClientState::Exhausted(
                WhereError::TimedOut(ep, addr, att, tmo),
            ) && ep@ == endpoint@ && addr@ == address@ && att == settings.max_retries && tmo
                == settings.timeout),
            (ClientState::Binding, ClientEvent::BoundOk) => settings.max_retries == 0 ==> (
            r matches ClientState::Exhausted(WhereError::TimedOut(ep, addr, att, tmo)) && ep@
                == endpoint@ && addr@ == address@ && att == 0 && tmo == settings.timeout),
            (
                ClientState::Resolving { retried_with_port: true },
                ClientEvent::ResolveFailed,
            ) => r == ClientState::Fatal(WhereError::IOError),
            (ClientState::Binding, ClientEvent::BindFailed) => r == ClientState::Fatal(
                WhereError::IOError,
            ),
            (ClientState::Sending { sent: _ }, ClientEvent::SendFailed) => r == ClientState::Fatal(
                WhereError::IOError,
            ),
            (ClientState::Awaiting { sent: _ }, ClientEvent::RecvFailed) => r == ClientState::Fatal(
                WhereError::IOError,
            ),
            _ => true,
        }),
        (phase_of(state) is Succeeded || phase_of(state) is Exhausted || phase_of(state)
            is Fatal) ==> r == state,
{
    match (state, event) {
        (ClientState::Resolving { retried_with_port: _ }, ClientEvent::Resolved) => ClientState::Binding,
        (
            ClientState::Resolving { retried_with_port: false },
            ClientEvent::ResolveFailed,
        ) => ClientState::Resolving { retried_with_port: true },
        (ClientState::Resolving { retried_with_port: true }, ClientEvent::ResolveFailed) => ClientState::Fatal(
            WhereError::IOError,
        ),
        (ClientState::Binding, ClientEvent::BoundOk) => {
            if settings.max_retries == 0 {
                ClientState::Exhausted(
                    WhereError::TimedOut(
                        endpoint.to_owned(),
                        address.to_owned(),
                        settings.max_retries,
                        settings.timeout,
                    ),
                )
            } else {
                ClientState::Sending { sent: 0 }
            }
        },
        (ClientState::Binding, ClientEvent::BindFailed) => ClientState::Fatal(WhereError::IOError),
        (ClientState::Sending { sent }, ClientEvent::SentOk) => ClientState::Awaiting {
            sent: (if sent < usize::MAX {
                sent + 1
            } else {
                sent
            }),
        },
        (ClientState::Sending { sent: _ }, ClientEvent::SendFailed) => ClientState::Fatal(
            WhereError::IOError,
        ),
        (ClientState::Awaiting { sent: _ }, ClientEvent::Reply(buf)) => {
            match SessionCollection::from_udp_payload(buf.as_slice(), settings.label.as_str()) {
                Ok(c) => ClientState::Succeeded(c),
                Err(e) => ClientState::Fatal(e),
            }
        },
        (ClientState::Awaiting { sent }, ClientEvent::RecvTimedOut) => {
            if sent < settings.max_retries {
                ClientState::Sending { sent }
            } else {
                ClientState::Exhausted(
                    WhereError::TimedOut(
                        endpoint.to_owned(),
                        address.to_owned(),
                        settings.max_retries,
                        settings.timeout,
                    ),
                )
            }
        },
        (ClientState::Awaiting { sent: _ }, ClientEvent::RecvFailed) => ClientState::Fatal(
            WhereError::IOError,
        ),
        (other, _) => other,
    }
}

/// The phase a run of transitions ends in.
pub open spec fn spec_run(p: ClientPhaseV, events: Seq<ClientEventV>, max_retries: usize) -> ClientPhaseV
    decreases events.len(),
{
    if events.len() == 0 {
        p
    } else {
        spec_run(spec_client_step(p, events[0], max_retries), events.drop_first(), max_retries)
    }
}

/// The events a target that never replies produces: each probe goes out
/// and its receive wait times out, `n` times over.
pub open spec fn spec_probe_rounds(n: nat) -> Seq<ClientEventV>
    decreases n,
{
    if n == 0 {
        Seq::empty()
    } else {
        seq![ClientEventV::SentOk, ClientEventV::RecvTimedOut] + spec_probe_rounds((n - 1) as nat)
    }
}

/// Retry semantics: against a target that never replies, a machine that
/// has sent `sent` probes so far sends exactly `max_retries - sent` more
/// — each send followed by a full timeout wait — and then, and only
/// then, is exhausted; any shorter such run leaves it still probing.
/// Together with `client_step`'s contract, the exhausted state reports
/// the configured attempt count and timeout.
pub proof fn lemma_retry_semantics(sent: usize, m: nat, max_retries: usize)
    requires
        sent + m <= max_retries,
    ensures
        spec_run(ClientPhaseV::Sending { sent }, spec_probe_rounds(m), max_retries) == (if m == 0 {
            ClientPhaseV::Sending { sent }
        } else if sent + m == max_retries {
            ClientPhaseV::Exhausted
        } else {
            ClientPhaseV::Sending { sent: (sent + m) as usize }
        }),
    decreases m,
{
    if m == 0 {
    } else {
        let events = spec_probe_rounds(m);
        let two = seq![ClientEventV::SentOk, ClientEventV::RecvTimedOut];
        let rest = spec_probe_rounds((m - 1) as nat);
        assert(events == two + rest);
        assert(events[0] == ClientEventV::SentOk);
        let after_send = spec_client_step(
            ClientPhaseV::Sending { sent },
            ClientEventV::SentOk,
            max_retries,
        );
        assert(after_send == ClientPhaseV::Awaiting { sent: (sent + 1) as usize });
        assert(events.drop_first()[0] == ClientEventV::RecvTimedOut);
        let after_wait = spec_client_step(after_send, ClientEventV::RecvTimedOut, max_retries);
        assert(events.drop_first().drop_first() =~= rest);
        assert(spec_run(ClientPhaseV::Sending { sent }, events, max_retries) == spec_run(
            after_send,
            events.drop_first(),
            max_retries,
        ));
        assert(spec_run(after_send, events.drop_first(), max_retries) == spec_run(
            after_wait,
            rest,
            max_retries,
        ));
        if sent + 1 == max_retries && m == 1 {
            assert(after_wait == ClientPhaseV::Exhausted);
            lemma_run_stays_exhausted(rest, max_retries);
        } else if sent + 1 < max_retries {
            assert(after_wait == ClientPhaseV::Sending { sent: (sent + 1) as usize });
            lemma_retry_semantics((sent + 1) as usize, (m - 1) as nat, max_retries);
        } else {
            assert(after_wait == ClientPhaseV::Exhausted);
            lemma_run_stays_exhausted(rest, max_retries);
        }
    }
}

/// An exhausted machine stays exhausted, whatever else happens.
proof fn lemma_run_stays_exhausted(events: Seq<ClientEventV>, max_retries: usize)
    ensures
        spec_run(ClientPhaseV::Exhausted, events, max_retries) == ClientPhaseV::Exhausted,
    decreases events.len(),
{
    if events.len() == 0 {
    } else {
        lemma_run_stays_exhausted(events.drop_first(), max_retries);
    }
}

/// One target's contribution to a run: its failsafe policy and either
/// its decoded sessions or nothing, when it failed.
pub struct TargetOutcome {
    /// Whether this target's failure is skipped rather than aborting the
    /// run.
    pub failsafe: bool,
    /// The sessions the target yielded, or `None` when it failed.
    pub sessions: Option<Vec<Session>>,
}

/// The model of one outcome.
pub open spec fn spec_outcome_view(o: TargetOutcome) -> (bool, Option<Seq<SessionV>>) {
    (
        o.failsafe,
        match o.sessions {
            Some(v) => Some(sessions_view(v@)),
            None => None,
        },
    )
}

/// The models of a run of outcomes, in order.
pub open spec fn outcomes_view(v: Seq<TargetOutcome>) -> Seq<(bool, Option<Seq<SessionV>>)> {
    Seq::new(v.len(), |i: int| spec_outcome_view(v[i]))
}

/// What aggregating a run of per-target outcomes yields: the collected
/// sessions in target order, or nothing at all once a target without
/// failsafe has failed.
pub open spec fn spec_aggregate(rs: Seq<(bool, Option<Seq<SessionV>>)>) -> Option<Seq<SessionV>>
    decreases rs.len(),
{
    if rs.len() == 0 {
        Some(Seq::empty())
    } else {
        match rs[0].1 {
            None => if !rs[0].0 {
                None
            } else {
                spec_aggregate(rs.drop_first())
            },
            Some(ss) => match spec_aggregate(rs.drop_first()) {
                None => None,
                Some(acc) => Some(ss + acc),
            },
        }
    }
}

/// The sessions of the successful outcomes, in order.
pub open spec fn spec_collected(rs: Seq<(bool, Option<Seq<SessionV>>)>) -> Seq<SessionV>
    decreases rs.len(),
{
    if rs.len() == 0 {
        Seq::empty()
    } else {
        match rs[0].1 {
            None => spec_collected(rs.drop_first()),
            Some(ss) => ss + spec_collected(rs.drop_first()),
        }
    }
}

/// Merges per-target outcomes in order: every successful target's
/// sessions are collected, a failed target with failsafe is skipped, and
/// a failed target without failsafe aborts the run, yielding nothing.
pub fn aggregate(outcomes: Vec<TargetOutcome>) -> (r: Option<Vec<Session>>)
    ensures
        (match spec_aggregate(outcomes_view(outcomes@)) {
            None => r is None,
            Some(ss) => r matches Some(v) && sessions_view(v@) == ss,
        }),
{
    let ghost full = outcomes_view(outcomes@);
    let mut remaining: Vec<TargetOutcome> = outcomes;
    let mut acc: Vec<Session> = Vec::new();
    proof {
        match spec_aggregate(outcomes_view(remaining@)) {
            Some(rest) => {
                assert(sessions_view(acc@) + rest =~= rest);
            },
            None => {},
        }
    }
    while remaining.len() > 0
        invariant
            full == outcomes_view(outcomes@),
            (match spec_aggregate(outcomes_view(remaining@)) {
                None => spec_aggregate(full) is None,
                Some(rest) => spec_aggregate(full) matches Some(tot) && tot == sessions_view(acc@)
                    + rest,
            }),
        decreases remaining.len(),
    {
        let ghost before = outcomes_view(remaining@);
        let ghost acc_before = sessions_view(acc@);
        let outcome: TargetOutcome = remaining.remove(0);
        proof {
            assert(outcomes_view(remaining@) =~= before.drop_first());
            assert(before[0] == spec_outcome_view(outcome));
        }
        match outcome.sessions {
            Some(mut v) => {
                proof {
                    match spec_aggregate(before.drop_first()) {
                        Some(rest) => {
                            assert(acc_before + (sessions_view(v@) + rest) =~= (acc_before
                                + sessions_view(v@)) + rest);
                        },
                        None => {},
                    }
                }
                let ghost v_views = sessions_view(v@);
                acc.append(&mut v);
                proof {
                    assert(sessions_view(acc@) =~= acc_before + v_views);
                }
            },
            None => {
                if !outcome.failsafe {
                    proof {
                        assert(before[0].1 is None && !before[0].0);
                        assert(spec_aggregate(before) is None);
                        assert(spec_aggregate(full) is None);
                    }
                    return None;
                }
            },
        }
    }
    proof {
        assert(outcomes_view(remaining@).len() == 0);
        match spec_aggregate(full) {
            Some(tot) => {
                assert(sessions_view(acc@) + Seq::<SessionV>::empty() =~= sessions_view(acc@));
            },
            None => {},
        }
    }
    Some(acc)
}

/// Failsafe behavior: when every failed target has failsafe set, the run
/// completes with exactly the successful targets' sessions; when some
/// failed target has it unset, the run yields nothing at all.
pub proof fn lemma_failsafe_behavior(rs: Seq<(bool, Option<Seq<SessionV>>)>)
    ensures
        (forall|i: int| (0 <= i < rs.len() && (#[trigger] rs[i]).1 is None) ==> rs[i].0)
            ==> spec_aggregate(rs) == Some(spec_collected(rs)),
        (exists|i: int| 0 <= i < rs.len() && (#[trigger] rs[i]).1 is None && !rs[i].0)
            ==> spec_aggregate(rs) is None,
    decreases rs.len(),
{
    if rs.len() == 0 {
    } else {
        let tail = rs.drop_first();
        lemma_failsafe_behavior(tail);
        assert(forall|j: int| 0 <= j < tail.len() ==> #[trigger] tail[j] == rs[j + 1]);
        if forall|i: int| (0 <= i < rs.len() && (#[trigger] rs[i]).1 is None) ==> rs[i].0 {
            assert(forall|j: int| (0 <= j < tail.len() && (#[trigger] tail[j]).1 is None)
                ==> tail[j].0);
            assert(spec_aggregate(tail) == Some(spec_collected(tail)));
        }
        if exists|i: int| 0 <= i < rs.len() && (#[trigger] rs[i]).1 is None && !rs[i].0 {
            let i = choose|i: int| 0 <= i < rs.len() && (#[trigger] rs[i]).1 is None && !rs[i].0;
            if i == 0 {
                assert(spec_aggregate(rs) is None);
            } else {
                assert(tail[i - 1] == rs[i]);
                assert(exists|j: int|
                    0 <= j < tail.len() && (#[trigger] tail[j]).1 is None && !tail[j].0);
                assert(spec_aggregate(tail) is None);
            }
        }
    }
}

} // verus!
