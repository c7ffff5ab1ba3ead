//! The per-entity probabilistic evaluators: fee randomization, peer
//! disconnect, peer ping, payment probe, and the channel open/close planners.
//!
//! Each evaluator walks one freshly fetched entity collection, applies an
//! independent Bernoulli trial per entity, and plans one disruptive action
//! per successful trial. A plan predicate relates the input collection to
//! the planned actions: actions come in entity order, at most one per
//! entity, only for eligible entities, and with every drawn parameter inside
//! its fixed range. At the probability extremes the predicates pin the plan
//! exactly: certainty plans every eligible entity, impossibility plans none.

use vstd::prelude::*;
use crate::amount::Amount;
use crate::chance::bernoulli;
use crate::config::{Probability, PROBABILITY_SCALE};
use crate::model::{node_connect_target, Channel, MyCustomError, Node, Peer};

verus! {

/// Per-channel fee-randomization probability, in parts per million.
pub const FEE_TRIAL_PPM: u32 = 20_000;

/// Per-peer disconnect probability, in parts per million.
pub const DISCONNECT_TRIAL_PPM: u32 = 20_000;

/// Per-peer ping probability, in parts per million.
pub const PING_TRIAL_PPM: u32 = 100_000;

/// Per-node payment-probe probability, in parts per million.
pub const KEYSEND_TRIAL_PPM: u32 = 50_000;

/// The channel count separating open-seeking from close-seeking behavior.
pub const CHANNEL_WATERMARK: usize = 20;

/// Randomized fee rate range, parts per million: `[50, 750)`.
pub const FEE_PPM_MIN: u32 = 50;

pub const FEE_PPM_SPAN: u32 = 700;

/// Randomized flat base fee range, millisatoshis: `[1, 1501)`.
pub const FEE_BASE_MIN: u64 = 1;

pub const FEE_BASE_SPAN: u64 = 1_500;

/// Probe payment range, millisatoshis: `[5000, 705000)`.
pub const KEYSEND_MSAT_MIN: u64 = 5_000;

pub const KEYSEND_MSAT_SPAN: u64 = 700_000;

/// Funding range of a planned channel open, satoshis: `[500000, 1500000)`.
pub const OPEN_SAT_MIN: u64 = 500_000;

pub const OPEN_SAT_SPAN: u64 = 1_000_000;

/// One disruptive action to dispatch over the RPC gateway. Failures of
/// dispatched actions are logged by the driver and never re-enter the
/// decision logic.
#[derive(Clone, Debug, PartialEq)]
pub enum Action {
    /// Set a channel's fee rate and flat base fee to fresh random values.
    RandomizeFee { short_channel_id: String, feeppm: u32, feebase: Amount },
    /// Forcibly disconnect a peer.
    Disconnect { peer_id: String },
    /// Ping a peer with random ping and pong byte lengths.
    Ping { peer_id: String, ping_len: u32, pong_len: u32 },
    /// Send a spontaneous probe payment to a node.
    Keysend { node_id: String, amount: Amount },
    /// Fund a fresh channel to a node.
    OpenChannel { node_id: String, amount_sat: u64 },
    /// Close a channel.
    CloseChannel { short_channel_id: String },
}

/// A node selected for a channel open: where to connect, and the funding
/// size to use once connected.
#[derive(Clone, Debug, PartialEq)]
pub struct OpenCandidate {
    pub node_id: String,
    pub host: Option<String>,
    pub port: u16,
    pub amount_sat: u64,
}

// ---------------------------------------------------------------------------
// Plan predicates
// ---------------------------------------------------------------------------
/// A fee action for channel `c`: its short id, with both drawn fee
/// parameters inside their ranges.
pub open spec fn is_fee_action_for(c: Channel, a: Action) -> bool {
    match a {
        Action::RandomizeFee { short_channel_id, feeppm, feebase } => {
            &&& c.short_channel_id == Some(short_channel_id)
            &&& FEE_PPM_MIN <= feeppm < FEE_PPM_MIN + FEE_PPM_SPAN
            &&& FEE_BASE_MIN <= feebase.msat < FEE_BASE_MIN + FEE_BASE_SPAN
        },
        _ => false,
    }
}

/// The planned fee actions arise from the channels in order: per channel
/// with a short id, either one fee action or none; channels without a short
/// id are not yet actionable and contribute nothing.
pub open spec fn fee_plan(chs: Seq<Channel>, acts: Seq<Action>) -> bool
    decreases chs.len(),
{
    if chs.len() == 0 {
        acts.len() == 0
    } else {
        let c = chs.last();
        if c.short_channel_id is Some {
            ||| (acts.len() > 0 && is_fee_action_for(c, acts.last()) && fee_plan(
                chs.drop_last(),
                acts.drop_last(),
            ))
            ||| fee_plan(chs.drop_last(), acts)
        } else {
            fee_plan(chs.drop_last(), acts)
        }
    }
}

/// The planned disconnects arise from the peers in order: per connected
/// peer, either its forced disconnect or nothing.
pub open spec fn disconnect_plan(peers: Seq<Peer>, acts: Seq<Action>) -> bool
    decreases peers.len(),
{
    if peers.len() == 0 {
        acts.len() == 0
    } else {
        let p = peers.last();
        if p.connected {
            ||| (acts.len() > 0 && acts.last() == (Action::Disconnect { peer_id: p.id })
                && disconnect_plan(peers.drop_last(), acts.drop_last()))
            ||| disconnect_plan(peers.drop_last(), acts)
        } else {
            disconnect_plan(peers.drop_last(), acts)
        }
    }
}

/// A ping of peer `p`, with whatever byte lengths were drawn.
pub open spec fn is_ping_action_for(p: Peer, a: Action) -> bool {
    match a {
        Action::Ping { peer_id, ping_len, pong_len } => peer_id == p.id,
        _ => false,
    }
}

/// The planned pings arise from the peers in order: per connected peer,
/// either one ping or none.
pub open spec fn ping_plan(peers: Seq<Peer>, acts: Seq<Action>) -> bool
    decreases peers.len(),
{
    if peers.len() == 0 {
        acts.len() == 0
    } else {
        let p = peers.last();
        if p.connected {
            ||| (acts.len() > 0 && is_ping_action_for(p, acts.last()) && ping_plan(
                peers.drop_last(),
                acts.drop_last(),
            ))
            ||| ping_plan(peers.drop_last(), acts)
        } else {
            ping_plan(peers.drop_last(), acts)
        }
    }
}

/// A probe payment to node `n`, with the drawn amount inside its range.
pub open spec fn is_keysend_action_for(n: Node, a: Action) -> bool {
    match a {
        Action::Keysend { node_id, amount } => {
            &&& node_id == n.nodeid
            &&& KEYSEND_MSAT_MIN <= amount.msat < KEYSEND_MSAT_MIN + KEYSEND_MSAT_SPAN
        },
        _ => false,
    }
}

/// The planned probes arise from the nodes in order: per node, either one
/// probe payment or none.
pub open spec fn keysend_plan(nodes: Seq<Node>, acts: Seq<Action>) -> bool
    decreases nodes.len(),
{
    if nodes.len() == 0 {
        acts.len() == 0
    } else {
        let n = nodes.last();
        ||| (acts.len() > 0 && is_keysend_action_for(n, acts.last()) && keysend_plan(
            nodes.drop_last(),
            acts.drop_last(),
        ))
        ||| keysend_plan(nodes.drop_last(), acts)
    }
}

/// The close action of a channel with a short id.
pub open spec fn close_action_of(c: Channel) -> Action {
    Action::CloseChannel { short_channel_id: c.short_channel_id.unwrap() }
}

/// The planned closes arise from the channels in order, at the given trial
/// probability: per channel with a short id, its close when the trial
/// succeeded (impossible at probability zero) or nothing (impossible at
/// probability one); channels without a short id contribute nothing.
pub open spec fn close_plan(chs: Seq<Channel>, acts: Seq<Action>, ppm: u32) -> bool
    decreases chs.len(),
{
    if chs.len() == 0 {
        acts.len() == 0
    } else {
        let c = chs.last();
        if c.short_channel_id is Some {
            ||| (ppm > 0 && acts.len() > 0 && acts.last() == close_action_of(c) && close_plan(
                chs.drop_last(),
                acts.drop_last(),
                ppm,
            ))
            ||| (ppm < PROBABILITY_SCALE && close_plan(chs.drop_last(), acts, ppm))
        } else {
            close_plan(chs.drop_last(), acts, ppm)
        }
    }
}

/// An open candidate for node `n`: its identity, its first IPV4 address,
/// and a funding size inside its range. Only an addressable node yields one.
pub open spec fn is_open_candidate_for(n: Node, cand: OpenCandidate) -> bool {
    match node_connect_target(n) {
        Some(a) => {
            &&& cand.node_id == n.nodeid
            &&& cand.host == a.address
            &&& cand.port == a.port
            &&& OPEN_SAT_MIN <= cand.amount_sat < OPEN_SAT_MIN + OPEN_SAT_SPAN
        },
        None => false,
    }
}

/// The open plan arises from the nodes in order, at the given trial
/// probability. A node not selected by its trial (impossible at probability
/// one) contributes nothing; a selected addressable node contributes one
/// candidate; a selected unaddressable node is skipped with a
/// `NodeNotAddressableError` and no RPC call is ever planned for it.
pub open spec fn open_plan(
    nodes: Seq<Node>,
    cands: Seq<OpenCandidate>,
    skipped: Seq<(String, MyCustomError)>,
    ppm: u32,
) -> bool
    decreases nodes.len(),
{
    if nodes.len() == 0 {
        cands.len() == 0 && skipped.len() == 0
    } else {
        let n = nodes.last();
        let rest = nodes.drop_last();
        ||| (ppm < PROBABILITY_SCALE && open_plan(rest, cands, skipped, ppm))
        ||| (ppm > 0 && node_connect_target(n) is Some && cands.len() > 0
            && is_open_candidate_for(n, cands.last()) && open_plan(
            rest,
            cands.drop_last(),
            skipped,
            ppm,
        ))
        ||| (ppm > 0 && node_connect_target(n) is None && skipped.len() > 0 && skipped.last()
            == (n.nodeid, MyCustomError::NodeNotAddressableError) && open_plan(
            rest,
            cands,
            skipped.drop_last(),
            ppm,
        ))
    }
}

// ---------------------------------------------------------------------------
// Random parameter draws
// ---------------------------------------------------------------------------
/// A fee rate drawn uniformly from its fixed range.
fn draw_fee_ppm() -> (r: u32)
    ensures
        FEE_PPM_MIN <= r < FEE_PPM_MIN + FEE_PPM_SPAN,
{
    rand::random::<u32>() % FEE_PPM_SPAN + FEE_PPM_MIN
}

/// A flat base fee drawn uniformly from its fixed range.
fn draw_fee_base() -> (r: u64)
    ensures
        FEE_BASE_MIN <= r < FEE_BASE_MIN + FEE_BASE_SPAN,
{
    rand::random::<u64>() % FEE_BASE_SPAN + FEE_BASE_MIN
}

/// A probe payment size drawn uniformly from its fixed range.
fn draw_keysend_msat() -> (r: u64)
    ensures
        KEYSEND_MSAT_MIN <= r < KEYSEND_MSAT_MIN + KEYSEND_MSAT_SPAN,
{
    rand::random::<u64>() % KEYSEND_MSAT_SPAN + KEYSEND_MSAT_MIN
}

/// A channel funding size drawn uniformly from its fixed range.
fn draw_open_sat() -> (r: u64)
    ensures
        OPEN_SAT_MIN <= r < OPEN_SAT_MIN + OPEN_SAT_SPAN,
{
    rand::random::<u64>() % OPEN_SAT_SPAN + OPEN_SAT_MIN
}

// ---------------------------------------------------------------------------
// Evaluators
// ---------------------------------------------------------------------------
/// Fee-randomization evaluator: per channel, a trial at the fixed fee
/// probability; on success and a present short id, plan a fee update with
/// freshly drawn rate and base.
pub fn maybe_randomize_channel_fee(channels: &Vec<Channel>) -> (acts: Vec<Action>)
    ensures
        fee_plan(channels@, acts@),
{
    let p = Probability::from_ppm(FEE_TRIAL_PPM);
    let mut acts: Vec<Action> = Vec::new();
    let mut i: usize = 0;
    while i < channels.len()
        invariant
            i <= channels.len(),
            p.ppm == FEE_TRIAL_PPM,
            fee_plan(channels@.take(i as int), acts@),
        decreases channels.len() - i,
    {
        let ghost prev = acts@;
        if bernoulli(p) {
            match &channels[i].short_channel_id {
                Some(id) => {
                    let feeppm = draw_fee_ppm();
                    let feebase = draw_fee_base();
                    acts.push(
                        Action::RandomizeFee {
                            short_channel_id: id.clone(),
                            feeppm,
                            feebase: Amount::from_msat(feebase),
                        },
                    );
                },
                None => {},
            }
        }
        proof {
            let t = channels@.take(i + 1);
            assert(t.drop_last() =~= channels@.take(i as int));
            assert(t.last() == channels@[i as int]);
            if acts@ != prev {
                assert(acts@.drop_last() =~= prev);
            }
        }
        i += 1;
    }
    proof {
        assert(channels@.take(channels@.len() as int) =~= channels@);
    }
    acts
}

/// Peer-disconnect evaluator: per connected peer, a trial at the fixed
/// disconnect probability; on success, plan a forced disconnect.
pub fn maybe_disconnect_random_peer(peers: &Vec<Peer>) -> (acts: Vec<Action>)
    ensures
        disconnect_plan(peers@, acts@),
{
    let p = Probability::from_ppm(DISCONNECT_TRIAL_PPM);
    let mut acts: Vec<Action> = Vec::new();
    let mut i: usize = 0;
    while i < peers.len()
        invariant
            i <= peers.len(),
            p.ppm == DISCONNECT_TRIAL_PPM,
            disconnect_plan(peers@.take(i as int), acts@),
        decreases peers.len() - i,
    {
        let ghost prev = acts@;
        if peers[i].connected {
            if bernoulli(p) {
                acts.push(Action::Disconnect { peer_id: peers[i].id.clone() });
            }
        }
        proof {
            let t = peers@.take(i + 1);
            assert(t.drop_last() =~= peers@.take(i as int));
            assert(t.last() == peers@[i as int]);
            if acts@ != prev {
                assert(acts@.drop_last() =~= prev);
            }
        }
        i += 1;
    }
    proof {
        assert(peers@.take(peers@.len() as int) =~= peers@);
    }
    acts
}

/// Peer-ping evaluator: per connected peer, a trial at the fixed ping
/// probability; on success, plan a ping with random byte lengths.
pub fn maybe_ping_peer_random_bytes(peers: &Vec<Peer>) -> (acts: Vec<Action>)
    ensures
        ping_plan(peers@, acts@),
{
    let p = Probability::from_ppm(PING_TRIAL_PPM);
    let mut acts: Vec<Action> = Vec::new();
    let mut i: usize = 0;
    while i < peers.len()
        invariant
            i <= peers.len(),
            p.ppm == PING_TRIAL_PPM,
            ping_plan(peers@.take(i as int), acts@),
        decreases peers.len() - i,
    {
        let ghost prev = acts@;
        if peers[i].connected {
            if bernoulli(p) {
                let ping_len = rand::random::<u32>();
                let pong_len = rand::random::<u32>();
                acts.push(Action::Ping { peer_id: peers[i].id.clone(), ping_len, pong_len });
            }
        }
        proof {
            let t = peers@.take(i + 1);
            assert(t.drop_last() =~= peers@.take(i as int));
            assert(t.last() == peers@[i as int]);
            if acts@ != prev {
                assert(acts@.drop_last() =~= prev);
            }
        }
        i += 1;
    }
    proof {
        assert(peers@.take(peers@.len() as int) =~= peers@);
    }
    acts
}

/// Payment-probe evaluator: per known node, a trial at the fixed probe
/// probability; on success, plan a keysend of a freshly drawn amount.
pub fn maybe_keysend_random_node(nodes: &Vec<Node>) -> (acts: Vec<Action>)
    ensures
        keysend_plan(nodes@, acts@),
{
    let p = Probability::from_ppm(KEYSEND_TRIAL_PPM);
    let mut acts: Vec<Action> = Vec::new();
    let mut i: usize = 0;
    while i < nodes.len()
        invariant
            i <= nodes.len(),
            p.ppm == KEYSEND_TRIAL_PPM,
            keysend_plan(nodes@.take(i as int), acts@),
        decreases nodes.len() - i,
    {
        let ghost prev = acts@;
        if bernoulli(p) {
            let amount = draw_keysend_msat();
            acts.push(
                Action::Keysend {
                    node_id: nodes[i].nodeid.clone(),
                    amount: Amount::from_msat(amount),
                },
            );
        }
        proof {
            let t = nodes@.take(i + 1);
            assert(t.drop_last() =~= nodes@.take(i as int));
            assert(t.last() == nodes@[i as int]);
            if acts@ != prev {
                assert(acts@.drop_last() =~= prev);
            }
        }
        i += 1;
    }
    proof {
        assert(nodes@.take(nodes@.len() as int) =~= nodes@);
    }
    acts
}

/// Close evaluator: per channel with a present short id, a trial at the
/// configured close probability; on success, plan the channel's close.
pub fn maybe_close_channel(channels: &Vec<Channel>, p: Probability) -> (acts: Vec<Action>)
    requires
        p.wf(),
    ensures
        close_plan(channels@, acts@, p.ppm),
{
    let mut acts: Vec<Action> = Vec::new();
    let mut i: usize = 0;
    while i < channels.len()
        invariant
            i <= channels.len(),
            p.wf(),
            close_plan(channels@.take(i as int), acts@, p.ppm),
        decreases channels.len() - i,
    {
        let ghost prev = acts@;
        if bernoulli(p) {
            match &channels[i].short_channel_id {
                Some(id) => {
                    acts.push(Action::CloseChannel { short_channel_id: id.clone() });
                },
                None => {},
            }
        }
        proof {
            let t = channels@.take(i + 1);
            assert(t.drop_last() =~= channels@.take(i as int));
            assert(t.last() == channels@[i as int]);
            if acts@ != prev {
                assert(acts@.drop_last() =~= prev);
            }
        }
        i += 1;
    }
    proof {
        assert(channels@.take(channels@.len() as int) =~= channels@);
    }
    acts
}

/// Open evaluator, planning half: per known node, a trial at the configured
/// open probability; a selected node either becomes an open candidate (via
/// its first IPV4 address, with a freshly drawn funding size) or is skipped
/// as not addressable. The driver connects to each candidate in turn and
/// funds the channel only after the connect succeeds.
pub fn maybe_open_channel(nodes: &Vec<Node>, p: Probability) -> (r: (
    Vec<OpenCandidate>,
    Vec<(String, MyCustomError)>,
))
    requires
        p.wf(),
    ensures
        open_plan(nodes@, r.0@, r.1@, p.ppm),
{
    let mut cands: Vec<OpenCandidate> = Vec::new();
    let mut skipped: Vec<(String, MyCustomError)> = Vec::new();
    let mut i: usize = 0;
    while i < nodes.len()
        invariant
            i <= nodes.len(),
            p.wf(),
            open_plan(nodes@.take(i as int), cands@, skipped@, p.ppm),
        decreases nodes.len() - i,
    {
        let ghost prev_cands = cands@;
        let ghost prev_skipped = skipped@;
        if bernoulli(p) {
            match crate::model::connect_candidate(&nodes[i]) {
                Ok(addr) => {
                    let amount_sat = draw_open_sat();
                    cands.push(
                        OpenCandidate {
                            node_id: nodes[i].nodeid.clone(),
                            host: addr.address,
                            port: addr.port,
                            amount_sat,
                        },
                    );
                },
                Err(e) => {
                    skipped.push((nodes[i].nodeid.clone(), e));
                },
            }
        }
        proof {
            let t = nodes@.take(i + 1);
            assert(t.drop_last() =~= nodes@.take(i as int));
            assert(t.last() == nodes@[i as int]);
            if cands@ != prev_cands {
                assert(cands@.drop_last() =~= prev_cands);
            }
            if skipped@ != prev_skipped {
                assert(skipped@.drop_last() =~= prev_skipped);
            }
        }
        i += 1;
    }
    proof {
        assert(nodes@.take(nodes@.len() as int) =~= nodes@);
    }
    (cands, skipped)
}

// ---------------------------------------------------------------------------
// What the plan predicates pin down
// ---------------------------------------------------------------------------
/// The close actions of every channel carrying a short id, in order.
pub open spec fn all_close_actions(chs: Seq<Channel>) -> Seq<Action>
    decreases chs.len(),
{
    if chs.len() == 0 {
        Seq::empty()
    } else if chs.last().short_channel_id is Some {
        all_close_actions(chs.drop_last()).push(close_action_of(chs.last()))
    } else {
        all_close_actions(chs.drop_last())
    }
}

/// At probability one, the close plan is exact: every channel carrying a
/// short id is closed exactly once, in order, and nothing else is planned.
pub proof fn lemma_close_plan_certain(chs: Seq<Channel>, acts: Seq<Action>)
    requires
        close_plan(chs, acts, PROBABILITY_SCALE),
    ensures
        acts =~= all_close_actions(chs),
    decreases chs.len(),
{
    if chs.len() > 0 {
        let c = chs.last();
        if c.short_channel_id is Some {
            lemma_close_plan_certain(chs.drop_last(), acts.drop_last());
            assert(acts =~= acts.drop_last().push(acts.last()));
        } else {
            lemma_close_plan_certain(chs.drop_last(), acts);
        }
    }
}

/// At probability zero, the close plan is empty.
pub proof fn lemma_close_plan_never(chs: Seq<Channel>, acts: Seq<Action>)
    requires
        close_plan(chs, acts, 0),
    ensures
        acts.len() == 0,
    decreases chs.len(),
{
    if chs.len() > 0 {
        lemma_close_plan_never(chs.drop_last(), acts);
    }
}

/// A close plan holds nothing but close actions.
pub proof fn lemma_close_plan_only_closes(chs: Seq<Channel>, acts: Seq<Action>, ppm: u32)
    requires
        close_plan(chs, acts, ppm),
    ensures
        forall|i: int| 0 <= i < acts.len() ==> #[trigger] acts[i] is CloseChannel,
    decreases chs.len(),
{
    if chs.len() > 0 {
        let c = chs.last();
        if c.short_channel_id is Some && ppm > 0 && acts.len() > 0 && acts.last()
            == close_action_of(c) && close_plan(chs.drop_last(), acts.drop_last(), ppm) {
            lemma_close_plan_only_closes(chs.drop_last(), acts.drop_last(), ppm);
            assert forall|i: int| 0 <= i < acts.len() implies #[trigger] acts[i] is CloseChannel by {
                if i < acts.len() - 1 {
                    assert(acts[i] == acts.drop_last()[i]);
                } else {
                    assert(acts[i] == acts.last());
                }
            }
        } else {
            lemma_close_plan_only_closes(chs.drop_last(), acts, ppm);
        }
    }
}

/// When no node publishes a usable address, the open plan holds no
/// candidate: nothing will be connected to and no channel will be funded.
pub proof fn lemma_open_plan_unaddressable(
    nodes: Seq<Node>,
    cands: Seq<OpenCandidate>,
    skipped: Seq<(String, MyCustomError)>,
    ppm: u32,
)
    requires
        open_plan(nodes, cands, skipped, ppm),
        forall|i: int| 0 <= i < nodes.len() ==> node_connect_target(#[trigger] nodes[i]) is None,
    ensures
        cands.len() == 0,
    decreases nodes.len(),
{
    if nodes.len() > 0 {
        let rest = nodes.drop_last();
        assert(forall|i: int|
            0 <= i < rest.len() ==> node_connect_target(#[trigger] rest[i]) is None);
        assert(node_connect_target(nodes.last()) is None);
        if ppm < PROBABILITY_SCALE && open_plan(rest, cands, skipped, ppm) {
            lemma_open_plan_unaddressable(rest, cands, skipped, ppm);
        } else {
            lemma_open_plan_unaddressable(rest, cands, skipped.drop_last(), ppm);
        }
    }
}

} // verus!
