//! The node data model observed over RPC: channels, peers, network nodes
//! and their published addresses. Entities are fetched fresh each tick and
//! never mutated locally.

use vstd::prelude::*;
use crate::amount::Amount;

verus! {

/// Type of a published network address.
#[derive(Copy, Clone, Debug, PartialEq, Eq, Structural)]
pub enum ListnodesNodesAddressType {
    DNS,
    IPV4,
    IPV6,
    TORV2,
    TORV3,
    WEBSOCKET,
}

/// An address type code outside the known range.
#[derive(Copy, Clone, Debug, PartialEq, Eq, Structural)]
pub struct UnknownAddressType {
    pub code: i32,
}

impl ListnodesNodesAddressType {
    /// Decode a numeric address-type code.
    pub fn try_from(c: i32) -> (r: Result<ListnodesNodesAddressType, UnknownAddressType>)
        ensures
            r == match c {
                0 => Ok::<ListnodesNodesAddressType, UnknownAddressType>(
                    ListnodesNodesAddressType::DNS,
                ),
                1 => Ok(ListnodesNodesAddressType::IPV4),
                2 => Ok(ListnodesNodesAddressType::IPV6),
                3 => Ok(ListnodesNodesAddressType::TORV2),
                4 => Ok(ListnodesNodesAddressType::TORV3),
                5 => Ok(ListnodesNodesAddressType::WEBSOCKET),
                _ => Err(UnknownAddressType { code: c }),
            },
    {
        match c {
            0 => Ok(ListnodesNodesAddressType::DNS),
            1 => Ok(ListnodesNodesAddressType::IPV4),
            2 => Ok(ListnodesNodesAddressType::IPV6),
            3 => Ok(ListnodesNodesAddressType::TORV2),
            4 => Ok(ListnodesNodesAddressType::TORV3),
            5 => Ok(ListnodesNodesAddressType::WEBSOCKET),
            _ => Err(UnknownAddressType { code: c }),
        }
    }
}

/// One published address of a network node.
#[derive(Clone, Debug, PartialEq)]
pub struct ListnodesNodesAddress {
    pub item_type: ListnodesNodesAddressType,
    pub port: u16,
    pub address: Option<String>,
}

/// A channel as reported by the funds listing. `short_channel_id` is present
/// only once funding is locked in; an absent one means "not yet actionable".
#[derive(Clone, Debug, PartialEq)]
pub struct Channel {
    pub peer_id: String,
    pub connected: bool,
    pub our_amount_msat: Amount,
    pub amount_msat: Amount,
    pub funding_txid: String,
    pub funding_output: u32,
    pub short_channel_id: Option<String>,
}

/// A known peer.
#[derive(Clone, Debug, PartialEq)]
pub struct Peer {
    pub id: String,
    pub connected: bool,
}

/// A node known to the network graph.
#[derive(Clone, Debug, PartialEq)]
pub struct Node {
    pub nodeid: String,
    pub last_timestamp: Option<u32>,
    pub alias: Option<String>,
    pub color: Option<String>,
    pub features: Option<String>,
    pub addresses: Option<Vec<ListnodesNodesAddress>>,
}

/// Domain failures of the channel-open path.
#[derive(Copy, Clone, Debug, PartialEq, Eq, Structural)]
pub enum MyCustomError {
    /// No usable connect address was found for a candidate node.
    NodeNotAddressableError,
    /// A connect attempt was explicitly rejected.
    ConnectionFailedError,
}

impl MyCustomError {
    /// A short description of the failure.
    pub fn message(&self) -> (r: &'static str)
        ensures
            *self is NodeNotAddressableError ==> r@ == "Node not addressable"@,
            *self is ConnectionFailedError ==> r@ == "Could not connect to node"@,
    {
        match self {
            MyCustomError::NodeNotAddressableError => "Node not addressable",
            MyCustomError::ConnectionFailedError => "Could not connect to node",
        }
    }
}

/// The first IPV4 entry of an address list, if any.
pub open spec fn first_ipv4_in(addrs: Seq<ListnodesNodesAddress>) -> Option<
    ListnodesNodesAddress,
>
    decreases addrs.len(),
{
    if addrs.len() == 0 {
        None
    } else if addrs[0].item_type is IPV4 {
        Some(addrs[0])
    } else {
        first_ipv4_in(addrs.drop_first())
    }
}

/// The address a node can be connected on: the first IPV4 entry of its
/// address list, if it published one at all.
pub open spec fn node_connect_target(node: Node) -> Option<ListnodesNodesAddress> {
    match node.addresses {
        Some(addrs) => first_ipv4_in(addrs@),
        None => None,
    }
}

/// A copy of an address value.
fn clone_address(a: &ListnodesNodesAddress) -> (r: ListnodesNodesAddress)
    ensures
        r == *a,
{
    ListnodesNodesAddress {
        item_type: a.item_type,
        port: a.port,
        address: match &a.address {
            Some(s) => Some(s.clone()),
            None => None,
        },
    }
}

/// The first IPV4 entry at or after position `i` equals the first one of the
/// whole suffix seen so far.
proof fn lemma_first_ipv4_after(addrs: Seq<ListnodesNodesAddress>, i: int)
    requires
        0 <= i <= addrs.len(),
        forall|j: int| 0 <= j < i ==> !(#[trigger] addrs[j].item_type is IPV4),
    ensures
        first_ipv4_in(addrs) == first_ipv4_in(addrs.skip(i)),
    decreases i,
{
    if i > 0 {
        assert(!(addrs[0].item_type is IPV4));
        assert(first_ipv4_in(addrs) == first_ipv4_in(addrs.drop_first()));
        lemma_first_ipv4_after(addrs.drop_first(), i - 1);
        assert(addrs.drop_first().skip(i - 1) =~= addrs.skip(i));
    } else {
        assert(addrs.skip(0) =~= addrs);
    }
}

/// Scan a node's addresses for a usable connect target: the first IPV4
/// entry. A node without one is not addressable.
pub fn connect_candidate(node: &Node) -> (r: Result<ListnodesNodesAddress, MyCustomError>)
    ensures
        r == match node_connect_target(*node) {
            Some(a) => Ok::<ListnodesNodesAddress, MyCustomError>(a),
            None => Err::<ListnodesNodesAddress, MyCustomError>(
                MyCustomError::NodeNotAddressableError,
            ),
        },
{
    match &node.addresses {
        None => Err(MyCustomError::NodeNotAddressableError),
        Some(addrs) => {
            let n = addrs.len();
            let mut i: usize = 0;
            loop
                invariant
                    n == addrs@.len(),
                    i <= n,
                    forall|j: int| 0 <= j < i ==> !(#[trigger] addrs@[j].item_type is IPV4),
                ensures
                    i <= n,
                    forall|j: int| 0 <= j < i ==> !(#[trigger] addrs@[j].item_type is IPV4),
                    i < n ==> addrs@[i as int].item_type is IPV4,
                    i == n ==> first_ipv4_in(addrs@) is None,
                decreases n - i,
            {
                if i >= n {
                    proof {
                        lemma_first_ipv4_after(addrs@, i as int);
                        assert(addrs@.skip(n as int) =~= Seq::<
                            ListnodesNodesAddress,
                        >::empty());
                    }
                    break;
                }
                if matches!(addrs[i].item_type, ListnodesNodesAddressType::IPV4) {
                    break;
                }
                i += 1;
            }
            if i < n {
                proof {
                    lemma_first_ipv4_after(addrs@, i as int);
                    assert(addrs@.skip(i as int)[0] == addrs@[i as int]);
                }
                Ok(clone_address(&addrs[i]))
            } else {
                Err(MyCustomError::NodeNotAddressableError)
            }
        },
    }
}

} // verus!
