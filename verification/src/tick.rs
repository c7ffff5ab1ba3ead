//! The scheduler tick as a state machine.
//!
//! A tick runs the evaluators in a fixed order — fee randomization, peer
//! disconnect, payment probe, channel lifecycle — each over a freshly
//! fetched entity collection. The driver owns the transport: it performs
//! the one outstanding request of each step, hands the outcome back as the
//! next event, and dispatches the planned actions, logging their failures.
//! A failed fetch is caught at its evaluator's boundary and never prevents
//! the evaluators that follow in the same tick.

use vstd::prelude::*;
use crate::config::Config;
use crate::model::{Channel, MyCustomError, Node, Peer};
use crate::policy::{
    close_plan, disconnect_plan, fee_plan, keysend_plan, maybe_close_channel,
    maybe_disconnect_random_peer, maybe_keysend_random_node, maybe_open_channel,
    maybe_randomize_channel_fee, open_plan, Action, OpenCandidate, CHANNEL_WATERMARK,
};

verus! {

/// A request the driver must answer before the tick can go on. Every
/// request is a single RPC call over a fresh transport session.
#[derive(Clone, Debug, PartialEq)]
pub enum Request {
    /// Fetch the unspent channels.
    Channels,
    /// Fetch the known peers.
    Peers,
    /// Fetch the known network nodes.
    Nodes,
    /// Connect to a node, ahead of funding a channel to it.
    Connect { node_id: String, host: Option<String>, port: u16 },
}

/// The driver's answer to a request: the fetched collection (nothing on a
/// transport or parse failure, which the driver logs), or whether a connect
/// attempt was accepted.
#[derive(Clone, Debug, PartialEq)]
pub enum Event {
    Channels(Option<Vec<Channel>>),
    Peers(Option<Vec<Peer>>),
    Nodes(Option<Vec<Node>>),
    Connected(bool),
}

/// Where a tick stands: which evaluator's fetch is outstanding, or which
/// open candidates still await their connect attempt.
#[derive(Clone, Debug, PartialEq)]
pub enum Phase {
    /// Awaiting channels for the fee-randomization evaluator.
    FeeChannels,
    /// Awaiting peers for the disconnect evaluator.
    DisconnectPeers,
    /// Awaiting nodes for the payment-probe evaluator.
    ProbeNodes,
    /// Awaiting channels for the lifecycle watermark decision.
    LifecycleChannels,
    /// Awaiting nodes for the open evaluator.
    OpenNodes,
    /// Awaiting channels for the close evaluator.
    CloseChannels,
    /// Awaiting the connect outcome for `current`; `rest` follow in order.
    Connecting { current: OpenCandidate, rest: Vec<OpenCandidate> },
    /// The tick is over.
    Done,
}

/// One step's outcome: the phase to continue from, the actions to dispatch
/// (their failures are logged and stay out of the decision logic), at most
/// one request awaiting an answer, and the domain failures to log.
#[derive(Clone, Debug, PartialEq)]
pub struct StepResult {
    pub next: Phase,
    pub actions: Vec<Action>,
    pub request: Option<Request>,
    pub skipped: Vec<(String, MyCustomError)>,
}

/// Which evaluator the watermark rule selects for this tick.
#[derive(Copy, Clone, Debug, PartialEq, Eq, Structural)]
pub enum LifecycleDecision {
    /// Below the watermark: seek new channels.
    Open,
    /// At or above the watermark: shed channels.
    Close,
}

/// The watermark rule: below twenty observed channels the tick runs the
/// open evaluator, from twenty on the close evaluator — exactly one of the
/// two, never both.
pub fn manage_channel_count(channel_count: usize) -> (d: LifecycleDecision)
    ensures
        d is Open <==> channel_count < CHANNEL_WATERMARK,
        d is Close <==> channel_count >= CHANNEL_WATERMARK,
{
    if channel_count < CHANNEL_WATERMARK {
        LifecycleDecision::Open
    } else {
        LifecycleDecision::Close
    }
}

/// The connect request of an open candidate.
pub open spec fn connect_request_of(c: OpenCandidate) -> Request {
    Request::Connect { node_id: c.node_id, host: c.host, port: c.port }
}

/// The funding action of an open candidate.
pub open spec fn open_action_of(c: OpenCandidate) -> Action {
    Action::OpenChannel { node_id: c.node_id, amount_sat: c.amount_sat }
}

/// Does the event answer what the phase awaits?
pub open spec fn expects(phase: Phase, event: Event) -> bool {
    match phase {
        Phase::FeeChannels => event is Channels,
        Phase::LifecycleChannels => event is Channels,
        Phase::CloseChannels => event is Channels,
        Phase::DisconnectPeers => event is Peers,
        Phase::ProbeNodes => event is Nodes,
        Phase::OpenNodes => event is Nodes,
        Phase::Connecting { .. } => event is Connected,
        Phase::Done => false,
    }
}

/// What one step guarantees, phase by phase.
///
/// The first three evaluators always hand the tick on to the one that
/// follows, whether their fetch succeeded or failed. The lifecycle decision
/// selects exactly one of the open and close evaluators by the watermark.
/// The connect chain opens a channel exactly for each accepted connect, and
/// records a `ConnectionFailedError` for each rejected one.
pub open spec fn step_post(phase: Phase, event: Event, config: Config, r: StepResult) -> bool {
    match phase {
        Phase::FeeChannels => {
            &&& r.next == Phase::DisconnectPeers
            &&& r.request == Some(Request::Peers)
            &&& r.skipped.len() == 0
            &&& match event {
                Event::Channels(Some(chs)) => fee_plan(chs@, r.actions@),
                _ => r.actions.len() == 0,
            }
        },
        Phase::DisconnectPeers => {
            &&& r.next == Phase::ProbeNodes
            &&& r.request == Some(Request::Nodes)
            &&& r.skipped.len() == 0
            &&& match event {
                Event::Peers(Some(ps)) => disconnect_plan(ps@, r.actions@),
                _ => r.actions.len() == 0,
            }
        },
        Phase::ProbeNodes => {
            &&& r.next == Phase::LifecycleChannels
            &&& r.request == Some(Request::Channels)
            &&& r.skipped.len() == 0
            &&& match event {
                Event::Nodes(Some(ns)) => keysend_plan(ns@, r.actions@),
                _ => r.actions.len() == 0,
            }
        },
        Phase::LifecycleChannels => {
            &&& r.actions.len() == 0
            &&& r.skipped.len() == 0
            &&& match event {
                Event::Channels(Some(chs)) => {
                    &&& (r.next is OpenNodes) <==> chs@.len() < CHANNEL_WATERMARK
                    &&& (r.next is CloseChannels) <==> chs@.len() >= CHANNEL_WATERMARK
                    &&& chs@.len() < CHANNEL_WATERMARK ==> r.request == Some(Request::Nodes)
                    &&& chs@.len() >= CHANNEL_WATERMARK ==> r.request == Some(Request::Channels)
                },
                _ => r.next is Done && r.request is None,
            }
        },
        Phase::OpenNodes => {
            &&& r.actions.len() == 0
            &&& match event {
                Event::Nodes(Some(ns)) => match r.next {
                    Phase::Connecting { current, rest } => {
                        &&& open_plan(
                            ns@,
                            seq![current] + rest@,
                            r.skipped@,
                            config.open_probability.ppm,
                        )
                        &&& r.request == Some(connect_request_of(current))
                    },
                    Phase::Done => {
                        &&& open_plan(
                            ns@,
                            Seq::empty(),
                            r.skipped@,
                            config.open_probability.ppm,
                        )
                        &&& r.request is None
                    },
                    _ => false,
                },
                _ => r.next is Done && r.request is None && r.skipped.len() == 0,
            }
        },
        Phase::CloseChannels => {
            &&& r.next is Done
            &&& r.request is None
            &&& r.skipped.len() == 0
            &&& match event {
                Event::Channels(Some(chs)) => close_plan(
                    chs@,
                    r.actions@,
                    config.close_probability.ppm,
                ),
                _ => r.actions.len() == 0,
            }
            &&& forall|i: int|
                0 <= i < r.actions@.len() ==> (#[trigger] r.actions@[i]) is CloseChannel
        },
        Phase::Connecting { current, rest } => {
            &&& match event {
                Event::Connected(true) => {
                    &&& r.actions@.len() == 1
                    &&& r.actions@[0] == open_action_of(current)
                    &&& r.skipped.len() == 0
                },
                Event::Connected(false) => {
                    &&& r.actions.len() == 0
                    &&& r.skipped@.len() == 1
                    &&& r.skipped@[0] == (current.node_id, MyCustomError::ConnectionFailedError)
                },
                _ => false,
            }
            &&& if rest@.len() == 0 {
                r.next is Done && r.request is None
            } else {
                match r.next {
                    Phase::Connecting { current: c2, rest: r2 } => {
                        &&& c2 == rest@[0]
                        &&& r2@ == rest@.drop_first()
                        &&& r.request == Some(connect_request_of(c2))
                    },
                    _ => false,
                }
            }
        },
        Phase::Done => true,
    }
}

/// A copy of an optional host string.
fn clone_host(h: &Option<String>) -> (r: Option<String>)
    ensures
        r == *h,
{
    match h {
        Some(s) => Some(s.clone()),
        None => None,
    }
}

/// A step result that ends the tick with nothing to do.
fn done_result() -> (r: StepResult)
    ensures
        r.next is Done,
        r.actions.len() == 0,
        r.request is None,
        r.skipped.len() == 0,
{
    StepResult { next: Phase::Done, actions: Vec::new(), request: None, skipped: Vec::new() }
}

/// Begin a tick: read the active flag once. An inactive configuration ends
/// the tick at once, with no request and no action — zero RPC calls. An
/// active one asks for the fee evaluator's channels.
pub fn spaz_out(config: &Config) -> (r: StepResult)
    requires
        config.wf(),
    ensures
        !config.active ==> r.next is Done && r.actions.len() == 0 && r.request is None
            && r.skipped.len() == 0,
        config.active ==> r.next is FeeChannels && r.actions.len() == 0 && r.request == Some(
            Request::Channels,
        ) && r.skipped.len() == 0,
{
    if !config.active {
        done_result()
    } else {
        StepResult {
            next: Phase::FeeChannels,
            actions: Vec::new(),
            request: Some(Request::Channels),
            skipped: Vec::new(),
        }
    }
}

/// Turn the head of an open-candidate queue into the connecting phase.
fn begin_connecting(cands: Vec<OpenCandidate>, skipped: Vec<(String, MyCustomError)>) -> (r:
    StepResult)
    requires
        cands@.len() > 0,
    ensures
        r.next matches Phase::Connecting { current, rest } && current == cands@[0] && rest@
            == cands@.drop_first() && r.request == Some(connect_request_of(current)),
        r.actions.len() == 0,
        r.skipped@ == skipped@,
{
    let mut rest = cands;
    let ghost cands0 = rest@;
    let current = rest.remove(0);
    proof {
        assert(rest@ =~= cands0.drop_first());
    }
    let request = Request::Connect {
        node_id: current.node_id.clone(),
        host: clone_host(&current.host),
        port: current.port,
    };
    StepResult {
        next: Phase::Connecting { current, rest },
        actions: Vec::new(),
        request: Some(request),
        skipped,
    }
}

/// Advance the tick by one step: consume the answer to the previous
/// request, plan this evaluator's actions, and say what to ask next.
pub fn step(phase: Phase, event: Event, config: &Config) -> (r: StepResult)
    requires
        config.wf(),
        expects(phase, event),
    ensures
        step_post(phase, event, *config, r),
{
    match phase {
        Phase::FeeChannels => {
            let actions = match &event {
                Event::Channels(Some(chs)) => maybe_randomize_channel_fee(chs),
                _ => Vec::new(),
            };
            StepResult {
                next: Phase::DisconnectPeers,
                actions,
                request: Some(Request::Peers),
                skipped: Vec::new(),
            }
        },
        Phase::DisconnectPeers => {
            let actions = match &event {
                Event::Peers(Some(ps)) => maybe_disconnect_random_peer(ps),
                _ => Vec::new(),
            };
            StepResult {
                next: Phase::ProbeNodes,
                actions,
                request: Some(Request::Nodes),
                skipped: Vec::new(),
            }
        },
        Phase::ProbeNodes => {
            let actions = match &event {
                Event::Nodes(Some(ns)) => maybe_keysend_random_node(ns),
                _ => Vec::new(),
            };
            StepResult {
                next: Phase::LifecycleChannels,
                actions,
                request: Some(Request::Channels),
                skipped: Vec::new(),
            }
        },
        Phase::LifecycleChannels => {
            match &event {
                Event::Channels(Some(chs)) => {
                    match manage_channel_count(chs.len()) {
                        LifecycleDecision::Open => StepResult {
                            next: Phase::OpenNodes,
                            actions: Vec::new(),
                            request: Some(Request::Nodes),
                            skipped: Vec::new(),
                        },
                        LifecycleDecision::Close => StepResult {
                            next: Phase::CloseChannels,
                            actions: Vec::new(),
                            request: Some(Request::Channels),
                            skipped: Vec::new(),
                        },
                    }
                },
                _ => done_result(),
            }
        },
        Phase::CloseChannels => {
            match &event {
                Event::Channels(Some(chs)) => {
                    let actions = maybe_close_channel(chs, config.close_probability);
                    proof {
                        crate::policy::lemma_close_plan_only_closes(
                            chs@,
                            actions@,
                            config.close_probability.ppm,
                        );
                    }
                    StepResult { next: Phase::Done, actions, request: None, skipped: Vec::new() }
                },
                _ => done_result(),
            }
        },
        Phase::OpenNodes => {
            match &event {
                Event::Nodes(Some(ns)) => {
                    let (cands, skipped) = maybe_open_channel(ns, config.open_probability);
                    if cands.len() == 0 {
                        proof {
                            assert(cands@ =~= Seq::<OpenCandidate>::empty());
                        }
                        StepResult {
                            next: Phase::Done,
                            actions: Vec::new(),
                            request: None,
                            skipped,
                        }
                    } else {
                        let ghost cands0 = cands@;
                        let r = begin_connecting(cands, skipped);
                        proof {
                            if let Phase::Connecting { current, rest } = &r.next {
                                assert(seq![*current] + rest@ =~= cands0);
                            }
                        }
                        r
                    }
                },
                _ => done_result(),
            }
        },
        Phase::Connecting { current, rest } => {
            let mut actions: Vec<Action> = Vec::new();
            let mut skipped: Vec<(String, MyCustomError)> = Vec::new();
            match &event {
                Event::Connected(true) => {
                    actions.push(
                        Action::OpenChannel {
                            node_id: current.node_id.clone(),
                            amount_sat: current.amount_sat,
                        },
                    );
                },
                Event::Connected(false) => {
                    skipped.push((current.node_id.clone(), MyCustomError::ConnectionFailedError));
                },
                _ => {
                    return vstd::pervasive::unreached();
                },
            }
            if rest.len() == 0 {
                StepResult { next: Phase::Done, actions, request: None, skipped }
            } else {
                let mut r = begin_connecting(rest, Vec::new());
                r.actions = actions;
                r.skipped = skipped;
                r
            }
        },
        Phase::Done => vstd::pervasive::unreached(),
    }
}

// ---------------------------------------------------------------------------
// What the step contracts pin down, tick-wide
// ---------------------------------------------------------------------------
/// A failing evaluator is isolated: whatever the fee evaluator's fetch
/// returned — a channel list or a failure — the tick goes on to the peer
/// disconnect evaluator, and from there to the probe and lifecycle
/// evaluators in turn.
pub proof fn lemma_evaluator_failure_is_isolated(event: Event, config: Config, r: StepResult)
    requires
        step_post(Phase::FeeChannels, event, config, r),
    ensures
        r.next == Phase::DisconnectPeers,
        r.request == Some(Request::Peers),
{
}

/// Nodes without a usable address stop the open path before any RPC call:
/// when no known node publishes an IPV4 address, the open step connects to
/// nothing, funds nothing, and ends the tick.
pub proof fn lemma_open_path_needs_an_address(v: Vec<Node>, config: Config, r: StepResult)
    requires
        step_post(Phase::OpenNodes, Event::Nodes(Some(v)), config, r),
        forall|i: int|
            0 <= i < v@.len() ==> crate::model::node_connect_target(#[trigger] v@[i]) is None,
    ensures
        r.next is Done,
        r.request is None,
        r.actions.len() == 0,
{
    if let Phase::Connecting { current, rest } = r.next {
        crate::policy::lemma_open_plan_unaddressable(
            v@,
            seq![current] + rest@,
            r.skipped@,
            config.open_probability.ppm,
        );
        assert((seq![current] + rest@).len() > 0);
    }
}

/// At close probability one the close step is exact: every channel carrying
/// a short id is closed exactly once, in order, and no channel open is
/// planned.
pub proof fn lemma_certain_close_step(v: Vec<Channel>, config: Config, r: StepResult)
    requires
        step_post(Phase::CloseChannels, Event::Channels(Some(v)), config, r),
        config.close_probability.ppm == crate::config::PROBABILITY_SCALE,
    ensures
        r.actions@ =~= crate::policy::all_close_actions(v@),
        forall|i: int| 0 <= i < r.actions@.len() ==> !((#[trigger] r.actions@[i]) is OpenChannel),
{
    crate::policy::lemma_close_plan_certain(v@, r.actions@);
}

} // verus!
