//! Canonical, version-independent model records.
//!
//! These are the types application code consumes.  Their shape is identical
//! whatever server version produced the data: fields that only newer servers
//! send are optional, and `None` means "not supplied by this server version",
//! which is kept distinct from any supplied value such as zero or an empty
//! string.  Values use fully parsed domain types, never raw wire text.

use vstd::prelude::*;

pub use crate::codec::AddressUnchecked;
pub use crate::codec::Amount;
pub use crate::codec::FeeRate;
pub use crate::codec::Txid;

verus! {

/// Models the result of JSON-RPC method `getnetworkinfo`.
#[derive(Clone, Debug)]
pub struct GetNetworkInfo {
    /// The server version.
    pub version: usize,
    /// The server subversion string.
    pub subversion: String,
    /// The protocol version.
    pub protocol_version: usize,
    /// The services we offer to the network (hex string).
    pub local_services: String,
    /// The services we offer to the network, by name.  v0.19 and later only.
    pub local_services_names: Option<Vec<String>>,
    /// `true` if transaction relay is requested from peers.
    pub local_relay: bool,
    /// The time offset.
    pub time_offset: isize,
    /// The total number of connections.
    pub connections: usize,
    /// The number of inbound connections.  v28 and later only.
    pub connections_in: Option<usize>,
    /// The number of outbound connections.  v28 and later only.
    pub connections_out: Option<usize>,
    /// Whether p2p networking is enabled.
    pub network_active: bool,
    /// Information per network.
    pub networks: Vec<GetNetworkInfoNetwork>,
    /// Minimum relay fee rate for transactions.
    pub relay_fee: Option<FeeRate>,
    /// Minimum fee rate increment for mempool limiting or replacement.
    pub incremental_fee: Option<FeeRate>,
    /// List of local addresses.
    pub local_addresses: Vec<GetNetworkInfoAddress>,
    /// Any network and blockchain warnings.
    pub warnings: Vec<String>,
}

/// Part of the result of the JSON-RPC method `getnetworkinfo` (information
/// per network).
#[derive(Clone, Debug)]
pub struct GetNetworkInfoNetwork {
    /// Network (ipv4, ipv6, onion, i2p, cjdns).
    pub name: String,
    /// Is the network limited using -onlynet?.
    pub limited: bool,
    /// Is the network reachable?
    pub reachable: bool,
    /// ("host:port"): The proxy that is used for this network, or empty if
    /// none.
    pub proxy: String,
    /// Whether randomized credentials are used.
    pub proxy_randomize_credentials: bool,
}

/// Part of the result of the JSON-RPC method `getnetworkinfo` (local address
/// info).
#[derive(Clone, Debug)]
pub struct GetNetworkInfoAddress {
    /// Network address.
    pub address: String,
    /// Network port.
    pub port: u16,
    /// Relative score.
    pub score: u32,
}

/// Result of JSON-RPC method `getnodeaddresses`.
#[derive(Clone, Debug)]
pub struct GetNodeAddresses(pub Vec<NodeAddress>);

/// An item from the list returned by the JSON-RPC method `getnodeaddresses`.
#[derive(Clone, Debug)]
pub struct NodeAddress {
    /// Timestamp in seconds since epoch (Jan 1 1970 GMT) when the node was
    /// last seen.
    pub time: u64,
    /// The services offered.
    pub services: u64,
    /// The address of the node, not yet checked against a network.
    pub address: AddressUnchecked,
    /// The port of the node.
    pub port: u16,
}

/// Result of JSON-RPC method `getbalances`.
#[derive(Clone, Debug)]
pub struct GetBalances {
    /// The balances of the wallet's own keys.
    pub mine: Amount,
    /// The balances of watch-only keys.  Only present for wallets that track
    /// watch-only keys.
    pub watchonly: Option<Amount>,
}

/// Result of JSON-RPC method `getprioritisedtransactions`: fee-delta
/// prioritisation per transaction, keyed by transaction identifier.  The
/// keys are unique because the wire object is keyed by them.
#[derive(Clone, Debug)]
pub struct GetPrioritisedTransactions(pub Vec<(Txid, PrioritisedTransaction)>);

/// Prioritisation of one transaction.
#[derive(Clone, Copy, Debug)]
pub struct PrioritisedTransaction {
    /// Transaction fee delta in satoshis.
    pub fee_delta: i64,
    /// Whether this transaction is currently in mempool.
    pub in_mempool: bool,
}

} // verus!
