use spaz::amount::Amount;
use spaz::config::Probability;
use spaz::model::{
    UnknownAddressType,
    connect_candidate, Channel, ListnodesNodesAddress, ListnodesNodesAddressType, MyCustomError,
    Node, Peer,
};
use spaz::policy::{
    maybe_close_channel, maybe_disconnect_random_peer, maybe_keysend_random_node,
    maybe_open_channel, maybe_ping_peer_random_bytes, maybe_randomize_channel_fee, Action,
};

fn channel(scid: Option<&str>) -> Channel {
    Channel {
        peer_id: String::from("peer"),
        connected: true,
        our_amount_msat: Amount::from_msat(1_000),
        amount_msat: Amount::from_msat(2_000),
        funding_txid: String::from("txid"),
        funding_output: 0,
        short_channel_id: scid.map(String::from),
    }
}

fn peer(id: &str, connected: bool) -> Peer {
    Peer { id: String::from(id), connected }
}

fn address(t: ListnodesNodesAddressType, host: &str, port: u16) -> ListnodesNodesAddress {
    ListnodesNodesAddress { item_type: t, port, address: Some(String::from(host)) }
}

fn node(id: &str, addresses: Option<Vec<ListnodesNodesAddress>>) -> Node {
    Node {
        nodeid: String::from(id),
        last_timestamp: None,
        alias: None,
        color: None,
        features: None,
        addresses,
    }
}

#[test]
fn certain_close_closes_every_channel_with_a_short_id() {
    // 25 channels, every fourth one still unconfirmed.
    let channels: Vec<Channel> = (0..25)
        .map(|i| {
            if i % 4 == 3 {
                channel(None)
            } else {
                channel(Some(&format!("scid-{i}")))
            }
        })
        .collect();
    let acts = maybe_close_channel(&channels, Probability::from_ppm(1_000_000));
    let expected: Vec<Action> = channels
        .iter()
        .filter_map(|c| c.short_channel_id.clone())
        .map(|scid| Action::CloseChannel { short_channel_id: scid })
        .collect();
    assert_eq!(acts, expected);
}

#[test]
fn impossible_close_closes_nothing() {
    let channels: Vec<Channel> = (0..10).map(|i| channel(Some(&format!("c{i}")))).collect();
    let acts = maybe_close_channel(&channels, Probability::from_ppm(0));
    assert!(acts.is_empty());
}

#[test]
fn fee_actions_target_confirmed_channels_with_parameters_in_range() {
    let channels: Vec<Channel> = (0..500)
        .map(|i| {
            if i % 5 == 0 {
                channel(None)
            } else {
                channel(Some(&format!("scid-{i}")))
            }
        })
        .collect();
    let acts = maybe_randomize_channel_fee(&channels);
    let confirmed: Vec<String> = channels
        .iter()
        .filter_map(|c| c.short_channel_id.clone())
        .collect();
    for a in &acts {
        match a {
            Action::RandomizeFee { short_channel_id, feeppm, feebase } => {
                assert!(confirmed.contains(short_channel_id));
                assert!((50..750).contains(feeppm));
                assert!((1..1501).contains(&feebase.msat()));
            }
            other => panic!("unexpected action {other:?}"),
        }
    }
}

#[test]
fn disconnects_target_only_connected_peers() {
    let peers: Vec<Peer> = (0..500)
        .map(|i| peer(&format!("p{i}"), i % 2 == 0))
        .collect();
    let acts = maybe_disconnect_random_peer(&peers);
    for a in &acts {
        match a {
            Action::Disconnect { peer_id } => {
                let p = peers.iter().find(|p| &p.id == peer_id).expect("planned peer exists");
                assert!(p.connected);
            }
            other => panic!("unexpected action {other:?}"),
        }
    }
}

#[test]
fn pings_target_only_connected_peers() {
    let peers: Vec<Peer> = (0..500)
        .map(|i| peer(&format!("p{i}"), i % 3 != 0))
        .collect();
    let acts = maybe_ping_peer_random_bytes(&peers);
    for a in &acts {
        match a {
            Action::Ping { peer_id, .. } => {
                let p = peers.iter().find(|p| &p.id == peer_id).expect("planned peer exists");
                assert!(p.connected);
            }
            other => panic!("unexpected action {other:?}"),
        }
    }
}

#[test]
fn probe_amounts_stay_in_range() {
    let nodes: Vec<Node> = (0..500).map(|i| node(&format!("n{i}"), None)).collect();
    let acts = maybe_keysend_random_node(&nodes);
    for a in &acts {
        match a {
            Action::Keysend { amount, .. } => {
                assert!((5_000..705_000).contains(&amount.msat()));
            }
            other => panic!("unexpected action {other:?}"),
        }
    }
}

#[test]
fn connect_candidate_picks_the_first_ipv4_entry() {
    let n = node(
        "n",
        Some(vec![
            address(ListnodesNodesAddressType::TORV3, "onion", 9735),
            address(ListnodesNodesAddressType::IPV4, "first", 1111),
            address(ListnodesNodesAddressType::IPV4, "second", 2222),
        ]),
    );
    let a = connect_candidate(&n).expect("an IPV4 entry exists");
    assert_eq!(a.address.as_deref(), Some("first"));
    assert_eq!(a.port, 1111);
}

#[test]
fn tor_only_node_is_not_addressable() {
    let n = node("n", Some(vec![address(ListnodesNodesAddressType::TORV3, "onion", 9735)]));
    assert_eq!(connect_candidate(&n), Err(MyCustomError::NodeNotAddressableError));
    let bare = node("n", None);
    assert_eq!(connect_candidate(&bare), Err(MyCustomError::NodeNotAddressableError));
}

#[test]
fn certain_open_separates_addressable_and_unaddressable_nodes() {
    let nodes = vec![
        node("a", Some(vec![address(ListnodesNodesAddressType::IPV4, "host-a", 1)])),
        node("b", Some(vec![address(ListnodesNodesAddressType::TORV3, "onion", 2)])),
        node("c", Some(vec![address(ListnodesNodesAddressType::IPV4, "host-c", 3)])),
    ];
    let (cands, skipped) = maybe_open_channel(&nodes, Probability::from_ppm(1_000_000));
    assert_eq!(cands.len(), 2);
    assert_eq!(cands[0].node_id, "a");
    assert_eq!(cands[0].host.as_deref(), Some("host-a"));
    assert_eq!(cands[0].port, 1);
    assert!((500_000..1_500_000).contains(&cands[0].amount_sat));
    assert_eq!(cands[1].node_id, "c");
    assert_eq!(
        skipped,
        vec![(String::from("b"), MyCustomError::NodeNotAddressableError)]
    );
}

#[test]
fn impossible_open_plans_nothing() {
    let nodes = vec![
        node("a", Some(vec![address(ListnodesNodesAddressType::IPV4, "host-a", 1)])),
    ];
    let (cands, skipped) = maybe_open_channel(&nodes, Probability::from_ppm(0));
    assert!(cands.is_empty());
    assert!(skipped.is_empty());
}

#[test]
fn address_type_codes_decode_exactly() {
    assert_eq!(ListnodesNodesAddressType::try_from(0), Ok(ListnodesNodesAddressType::DNS));
    assert_eq!(ListnodesNodesAddressType::try_from(1), Ok(ListnodesNodesAddressType::IPV4));
    assert_eq!(ListnodesNodesAddressType::try_from(2), Ok(ListnodesNodesAddressType::IPV6));
    assert_eq!(ListnodesNodesAddressType::try_from(3), Ok(ListnodesNodesAddressType::TORV2));
    assert_eq!(ListnodesNodesAddressType::try_from(4), Ok(ListnodesNodesAddressType::TORV3));
    assert_eq!(
        ListnodesNodesAddressType::try_from(5),
        Ok(ListnodesNodesAddressType::WEBSOCKET)
    );
    assert_eq!(ListnodesNodesAddressType::try_from(6), Err(UnknownAddressType { code: 6 }));
}

#[test]
fn error_messages_name_the_failure() {
    assert_eq!(MyCustomError::NodeNotAddressableError.message(), "Node not addressable");
    assert_eq!(MyCustomError::ConnectionFailedError.message(), "Could not connect to node");
}
