use spaz::amount::Amount;
use spaz::config::{Config, Probability};
use spaz::model::{Channel, ListnodesNodesAddress, ListnodesNodesAddressType, MyCustomError, Node};
use spaz::policy::Action;
use spaz::tick::{manage_channel_count, spaz_out, step, Event, LifecycleDecision, Phase, Request};

fn config(active: bool, open_ppm: u32, close_ppm: u32) -> Config {
    Config {
        rpc_path: String::from("lightning-rpc"),
        active,
        open_probability: Probability::from_ppm(open_ppm),
        close_probability: Probability::from_ppm(close_ppm),
    }
}

fn channel(scid: Option<&str>) -> Channel {
    Channel {
        peer_id: String::from("peer"),
        connected: true,
        our_amount_msat: Amount::from_msat(1_000),
        amount_msat: Amount::from_msat(2_000),
        funding_txid: String::from("txid"),
        funding_output: 0,
        short_channel_id: scid.map(String::from),
    }
}

fn ipv4_node(id: &str, host: &str, port: u16) -> Node {
    Node {
        nodeid: String::from(id),
        last_timestamp: None,
        alias: None,
        color: None,
        features: None,
        addresses: Some(vec![ListnodesNodesAddress {
            item_type: ListnodesNodesAddressType::IPV4,
            port,
            address: Some(String::from(host)),
        }]),
    }
}

fn tor_node(id: &str) -> Node {
    Node {
        nodeid: String::from(id),
        last_timestamp: None,
        alias: None,
        color: None,
        features: None,
        addresses: Some(vec![ListnodesNodesAddress {
            item_type: ListnodesNodesAddressType::TORV3,
            port: 9735,
            address: Some(String::from("onion")),
        }]),
    }
}

#[test]
fn inactive_tick_issues_no_rpc_calls() {
    let r = spaz_out(&config(false, 10_000, 500));
    assert_eq!(r.next, Phase::Done);
    assert!(r.actions.is_empty());
    assert_eq!(r.request, None);
    assert!(r.skipped.is_empty());
}

#[test]
fn active_tick_starts_with_the_fee_evaluator() {
    let r = spaz_out(&config(true, 10_000, 500));
    assert_eq!(r.next, Phase::FeeChannels);
    assert_eq!(r.request, Some(Request::Channels));
    assert!(r.actions.is_empty());
}

#[test]
fn watermark_selects_exactly_one_lifecycle_evaluator() {
    assert_eq!(manage_channel_count(19), LifecycleDecision::Open);
    assert_eq!(manage_channel_count(20), LifecycleDecision::Close);
    assert_eq!(manage_channel_count(0), LifecycleDecision::Open);

    let cfg = config(true, 10_000, 500);
    let nineteen: Vec<Channel> = (0..19).map(|_| channel(Some("x"))).collect();
    let r = step(Phase::LifecycleChannels, Event::Channels(Some(nineteen)), &cfg);
    assert_eq!(r.next, Phase::OpenNodes);
    assert_eq!(r.request, Some(Request::Nodes));

    let twenty: Vec<Channel> = (0..20).map(|_| channel(Some("x"))).collect();
    let r = step(Phase::LifecycleChannels, Event::Channels(Some(twenty)), &cfg);
    assert_eq!(r.next, Phase::CloseChannels);
    assert_eq!(r.request, Some(Request::Channels));
}

#[test]
fn a_failed_fetch_never_stops_the_next_evaluator() {
    let cfg = config(true, 10_000, 500);
    let r = step(Phase::FeeChannels, Event::Channels(None), &cfg);
    assert_eq!(r.next, Phase::DisconnectPeers);
    assert_eq!(r.request, Some(Request::Peers));
    assert!(r.actions.is_empty());

    let r = step(Phase::DisconnectPeers, Event::Peers(None), &cfg);
    assert_eq!(r.next, Phase::ProbeNodes);
    assert_eq!(r.request, Some(Request::Nodes));

    let r = step(Phase::ProbeNodes, Event::Nodes(None), &cfg);
    assert_eq!(r.next, Phase::LifecycleChannels);
    assert_eq!(r.request, Some(Request::Channels));

    let r = step(Phase::LifecycleChannels, Event::Channels(None), &cfg);
    assert_eq!(r.next, Phase::Done);
    assert_eq!(r.request, None);
}

#[test]
fn certain_close_tick_closes_each_confirmed_channel_once() {
    // 25 channels present and close probability one: every channel carrying
    // a short id receives exactly one close, and no open is ever planned.
    let cfg = config(true, 10_000, 1_000_000);
    let channels: Vec<Channel> = (0..25)
        .map(|i| {
            if i % 5 == 4 {
                channel(None)
            } else {
                channel(Some(&format!("scid-{i}")))
            }
        })
        .collect();

    let r = step(Phase::LifecycleChannels, Event::Channels(Some(channels.clone())), &cfg);
    assert_eq!(r.next, Phase::CloseChannels);
    assert!(r.actions.is_empty());

    let r = step(Phase::CloseChannels, Event::Channels(Some(channels.clone())), &cfg);
    assert_eq!(r.next, Phase::Done);
    assert_eq!(r.request, None);
    let expected: Vec<Action> = channels
        .iter()
        .filter_map(|c| c.short_channel_id.clone())
        .map(|scid| Action::CloseChannel { short_channel_id: scid })
        .collect();
    assert_eq!(r.actions, expected);
    assert!(!r.actions.iter().any(|a| matches!(a, Action::OpenChannel { .. })));
}

#[test]
fn tor_only_nodes_end_the_open_path_without_any_call() {
    let cfg = config(true, 1_000_000, 500);
    let nodes = vec![tor_node("a"), tor_node("b")];
    let r = step(Phase::OpenNodes, Event::Nodes(Some(nodes)), &cfg);
    assert_eq!(r.next, Phase::Done);
    assert_eq!(r.request, None);
    assert!(r.actions.is_empty());
    assert_eq!(
        r.skipped,
        vec![
            (String::from("a"), MyCustomError::NodeNotAddressableError),
            (String::from("b"), MyCustomError::NodeNotAddressableError),
        ]
    );
}

#[test]
fn connect_chain_funds_accepted_connects_and_skips_rejected_ones() {
    let cfg = config(true, 1_000_000, 500);
    let nodes = vec![ipv4_node("a", "host-a", 1), ipv4_node("b", "host-b", 2)];
    let r = step(Phase::OpenNodes, Event::Nodes(Some(nodes)), &cfg);
    let Phase::Connecting { ref current, ref rest } = r.next else {
        panic!("expected the connect chain to start, got {:?}", r.next);
    };
    assert_eq!(current.node_id, "a");
    assert_eq!(rest.len(), 1);
    assert_eq!(
        r.request,
        Some(Request::Connect {
            node_id: String::from("a"),
            host: Some(String::from("host-a")),
            port: 1
        })
    );
    let amount_a = current.amount_sat;

    // The first connect is accepted: its channel is funded and the chain
    // moves on to the second candidate.
    let r = step(r.next, Event::Connected(true), &cfg);
    assert_eq!(
        r.actions,
        vec![Action::OpenChannel { node_id: String::from("a"), amount_sat: amount_a }]
    );
    assert!(r.skipped.is_empty());
    assert!(matches!(r.next, Phase::Connecting { .. }));
    assert_eq!(
        r.request,
        Some(Request::Connect {
            node_id: String::from("b"),
            host: Some(String::from("host-b")),
            port: 2
        })
    );

    // The second connect is rejected: no channel is funded and the failure
    // is recorded.
    let r = step(r.next, Event::Connected(false), &cfg);
    assert!(r.actions.is_empty());
    assert_eq!(
        r.skipped,
        vec![(String::from("b"), MyCustomError::ConnectionFailedError)]
    );
    assert_eq!(r.next, Phase::Done);
    assert_eq!(r.request, None);
}

#[test]
fn a_whole_tick_with_empty_listings_completes() {
    let cfg = config(true, 10_000, 500);
    let mut r = spaz_out(&cfg);
    let mut steps = 0;
    while let Some(req) = r.request.clone() {
        let event = match req {
            Request::Channels => Event::Channels(Some(Vec::new())),
            Request::Peers => Event::Peers(Some(Vec::new())),
            Request::Nodes => Event::Nodes(Some(Vec::new())),
            Request::Connect { .. } => Event::Connected(false),
        };
        r = step(r.next, event, &cfg);
        steps += 1;
        assert!(steps < 16, "a tick must terminate");
    }
    assert_eq!(r.next, Phase::Done);
}
