//! Wire records for server version 19 — wallet and network.
//!
//! Each struct mirrors, field for field, the JSON shape this server version
//! returns; its paired conversion function turns it into the canonical model
//! record or reports the first field, in declared order, that failed.  This
//! version does not yet send the inbound and outbound connection counts, so
//! those wire fields do not exist here and the model fields come out absent.

use vstd::prelude::*;

use crate::codec::addr_valid;
use crate::codec::amount_result;
use crate::codec::btc_text;
use crate::codec::lemma_amount_roundtrip;
use crate::codec::is_ascii_seq;
use crate::codec::parse_address;
use crate::codec::parse_amount;
use crate::codec::parse_fee_rate;
use crate::codec::sats_of;
use crate::codec::AddressError;
use crate::codec::AmountError;
use crate::model;

verus! {

/// Result of JSON-RPC method `getbalances`, as this server version sends
/// it: amounts are decimal strings of whole coins.
#[derive(Clone, Debug)]
pub struct GetBalances {
    /// The balances of the wallet's own keys, as a decimal string.
    pub mine: String,
    /// The balances of watch-only keys, as a decimal string.  Only sent for
    /// wallets that track watch-only keys.
    pub watchonly: Option<String>,
}

/// Error when converting a `GetBalances` type into the model type.
#[derive(Clone, Copy, Debug, PartialEq, Eq)]
pub enum GetBalancesError {
    /// Conversion of the `mine` field failed.
    Mine(AmountError),
    /// Conversion of the `watchonly` field failed.
    WatchOnly(AmountError),
}

impl GetBalancesError {
    /// The description this error shows: it names the failing field.
    pub open spec fn message_spec(self) -> Seq<char> {
        match self {
            GetBalancesError::Mine(_) => "conversion of the `mine` field failed"@,
            GetBalancesError::WatchOnly(_) => "conversion of the `watchonly` field failed"@,
        }
    }

    /// A stable, field-specific description of the failure.
    pub fn message(&self) -> (r: &'static str)
        ensures
            r@ == self.message_spec(),
    {
        match self {
            GetBalancesError::Mine(_) => "conversion of the `mine` field failed",
            GetBalancesError::WatchOnly(_) => "conversion of the `watchonly` field failed",
        }
    }
}

/// The views of an optional wire string.
pub open spec fn opt_text(o: Option<String>) -> Option<Seq<char>> {
    match o {
        Some(s) => Some(s@),
        None => None,
    }
}

/// The error a `getbalances` conversion reports, if any: the first field in
/// declared order (`mine`, then `watchonly`) whose amount is rejected.  A
/// `watchonly` field the server did not send cannot fail.
pub open spec fn balances_error(mine: Seq<char>, watchonly: Option<Seq<char>>) -> Option<
    GetBalancesError,
> {
    match amount_result(mine) {
        Err(e) => Some(GetBalancesError::Mine(e)),
        Ok(_) => match watchonly {
            Some(w) => match amount_result(w) {
                Err(e) => Some(GetBalancesError::WatchOnly(e)),
                Ok(_) => None,
            },
            None => None,
        },
    }
}

/// The model's optional amount matches the optional wire string: absent
/// exactly when the server sent nothing, and the parsed value otherwise.
pub open spec fn watch_match(w: Option<String>, m: Option<model::Amount>) -> bool {
    match (w, m) {
        (Option::None, Option::None) => true,
        (Option::Some(ws), Option::Some(ma)) => ma.sats as int == sats_of(ws@),
        _ => false,
    }
}

impl GetBalances {
    /// Converts version specific type to a version nonspecific, more
    /// strongly typed type.
    ///
    /// Fields are parsed in declared order and the first failure decides the
    /// error; an absent `watchonly` stays absent and is never defaulted.
    pub fn into_model(self) -> (r: Result<model::GetBalances, GetBalancesError>)
        ensures
            r is Ok <==> balances_error(self.mine@, opt_text(self.watchonly)) is None,
            r matches Ok(m) ==> (m.mine.sats as int == sats_of(self.mine@) && watch_match(
                self.watchonly,
                m.watchonly,
            )),
            r matches Err(GetBalancesError::Mine(_)) <==> amount_result(self.mine@) is Err,
            r matches Err(GetBalancesError::WatchOnly(_)) <==> (amount_result(self.mine@) is Ok
                && (opt_text(self.watchonly) matches Some(w) && amount_result(w) is Err)),
            r matches Err(e) ==> (balances_ascii(self.mine@, opt_text(self.watchonly))
                ==> balances_error(self.mine@, opt_text(self.watchonly)) == Some(e)),
    {
        let mine = match parse_amount(self.mine.as_str()) {
            Ok(a) => a,
            Err(e) => {
                return Err(GetBalancesError::Mine(e));
            },
        };
        let watchonly = match self.watchonly {
            None => None,
            Some(w) => match parse_amount(w.as_str()) {
                Ok(a) => Some(a),
                Err(e) => {
                    return Err(GetBalancesError::WatchOnly(e));
                },
            },
        };
        Ok(model::GetBalances { mine, watchonly })
    }
}

/// Both balance fields, where present, are ASCII text.
pub open spec fn balances_ascii(mine: Seq<char>, watchonly: Option<Seq<char>>) -> bool {
    is_ascii_seq(mine) && (watchonly matches Some(w) ==> is_ascii_seq(w))
}

/// A wire record whose fields all parse converts, with no error to report.
pub proof fn lemma_balances_valid_converts(mine: Seq<char>, watchonly: Option<Seq<char>>)
    requires
        amount_result(mine) is Ok,
        watchonly matches Some(w) ==> amount_result(w) is Ok,
    ensures
        balances_error(mine, watchonly) is None,
{
}

/// Field order determinism: when both balance fields are malformed, the
/// error reported is always the one for `mine`, the earlier field in
/// declared order, wrapping `mine`'s own parse failure.
pub proof fn lemma_balances_first_error_wins(mine: Seq<char>, watchonly: Seq<char>)
    requires
        amount_result(mine) is Err,
        amount_result(watchonly) is Err,
    ensures
        match amount_result(mine) {
            Err(e) => balances_error(mine, Some(watchonly)) == Some(GetBalancesError::Mine(e)),
            Ok(_) => false,
        },
{
}

/// Round trip at the record level: writing a converted `getbalances` model
/// record's amounts back to their canonical wire text and converting again
/// reports no error and reproduces the same amounts, absence included.
pub proof fn lemma_balances_roundtrip(m: model::GetBalances)
    requires
        m.mine.wf(),
        m.watchonly matches Some(a) ==> a.wf(),
    ensures
        ({
            let mine = btc_text(m.mine.sats as int);
            let watchonly = match m.watchonly {
                Some(a) => Some(btc_text(a.sats as int)),
                None => None,
            };
            &&& balances_error(mine, watchonly) is None
            &&& amount_result(mine) == Ok::<int, AmountError>(m.mine.sats as int)
            &&& (m.watchonly matches Some(a) ==> amount_result(btc_text(a.sats as int)) == Ok::<
                int,
                AmountError,
            >(a.sats as int))
        }),
{
    lemma_amount_roundtrip(m.mine.sats as int);
    match m.watchonly {
        Some(a) => {
            lemma_amount_roundtrip(a.sats as int);
        },
        None => {},
    }
}

/// Part of the wire result of `getnetworkinfo` (information per network).
/// Every field is a plain copy; conversion cannot fail.
#[derive(Clone, Debug)]
pub struct GetNetworkInfoNetwork {
    /// Network (ipv4, ipv6, onion, i2p, cjdns).
    pub name: String,
    /// Is the network limited using -onlynet?.
    pub limited: bool,
    /// Is the network reachable?
    pub reachable: bool,
    /// ("host:port"): The proxy that is used for this network, or empty if
    /// none.
    pub proxy: String,
    /// Whether randomized credentials are used.
    pub proxy_randomize_credentials: bool,
}

impl GetNetworkInfoNetwork {
    /// The model record this wire record denotes.
    pub open spec fn model_spec(self) -> model::GetNetworkInfoNetwork {
        model::GetNetworkInfoNetwork {
            name: self.name,
            limited: self.limited,
            reachable: self.reachable,
            proxy: self.proxy,
            proxy_randomize_credentials: self.proxy_randomize_credentials,
        }
    }

    /// Converts version specific type to a version nonspecific, more
    /// strongly typed type.
    pub fn into_model(self) -> (r: model::GetNetworkInfoNetwork)
        ensures
            r == self.model_spec(),
    {
        model::GetNetworkInfoNetwork {
            name: self.name,
            limited: self.limited,
            reachable: self.reachable,
            proxy: self.proxy,
            proxy_randomize_credentials: self.proxy_randomize_credentials,
        }
    }
}

/// Part of the wire result of `getnetworkinfo` (local address info).
/// Every field is a plain copy; conversion cannot fail.
#[derive(Clone, Debug)]
pub struct GetNetworkInfoAddress {
    /// Network address.
    pub address: String,
    /// Network port.
    pub port: u16,
    /// Relative score.
    pub score: u32,
}

impl GetNetworkInfoAddress {
    /// The model record this wire record denotes.
    pub open spec fn model_spec(self) -> model::GetNetworkInfoAddress {
        model::GetNetworkInfoAddress {
            address: self.address,
            port: self.port,
            score: self.score,
        }
    }

    /// Converts version specific type to a version nonspecific, more
    /// strongly typed type.
    pub fn into_model(self) -> (r: model::GetNetworkInfoAddress)
        ensures
            r == self.model_spec(),
    {
        model::GetNetworkInfoAddress {
            address: self.address,
            port: self.port,
            score: self.score,
        }
    }
}

/// Converts a vector of per-network wire records, in order.
pub(crate) fn networks_into_model(v: Vec<GetNetworkInfoNetwork>) -> (r: Vec<
    model::GetNetworkInfoNetwork,
>)
    ensures
        r@.len() == v@.len(),
        forall|j: int| #![auto] 0 <= j < v@.len() ==> r@[j] == v@[j].model_spec(),
{
    let ghost orig = v@;
    let mut items = v;
    let mut out: Vec<model::GetNetworkInfoNetwork> = Vec::new();
    while items.len() > 0
        invariant
            out@.len() + items@.len() == orig.len(),
            items@ == orig.skip(out@.len() as int),
            forall|j: int| #![auto] 0 <= j < out@.len() ==> out@[j] == orig[j].model_spec(),
        decreases items@.len(),
    {
        let ghost n = out@.len() as int;
        assert(orig.skip(n).remove(0) =~= orig.skip(n + 1));
        let w = items.remove(0);
        out.push(w.into_model());
    }
    out
}

/// Converts a vector of local-address wire records, in order.
pub(crate) fn addresses_into_model(v: Vec<GetNetworkInfoAddress>) -> (r: Vec<
    model::GetNetworkInfoAddress,
>)
    ensures
        r@.len() == v@.len(),
        forall|j: int| #![auto] 0 <= j < v@.len() ==> r@[j] == v@[j].model_spec(),
{
    let ghost orig = v@;
    let mut items = v;
    let mut out: Vec<model::GetNetworkInfoAddress> = Vec::new();
    while items.len() > 0
        invariant
            out@.len() + items@.len() == orig.len(),
            items@ == orig.skip(out@.len() as int),
            forall|j: int| #![auto] 0 <= j < out@.len() ==> out@[j] == orig[j].model_spec(),
        decreases items@.len(),
    {
        let ghost n = out@.len() as int;
        assert(orig.skip(n).remove(0) =~= orig.skip(n + 1));
        let w = items.remove(0);
        out.push(w.into_model());
    }
    out
}

/// Result of JSON-RPC method `getnetworkinfo`, as this server version sends
/// it.  Fee rates are decimal strings of whole coins per 1000 virtual
/// bytes; the inbound and outbound connection counts are not sent yet.
#[derive(Clone, Debug)]
pub struct GetNetworkInfo {
    /// The server version.
    pub version: usize,
    /// The server subversion string.
    pub subversion: String,
    /// The protocol version.
    pub protocol_version: usize,
    /// The services we offer to the network (hex string).
    pub local_services: String,
    /// The services we offer to the network, by name.  First sent by this
    /// version; still optional at the source.
    pub local_services_names: Option<Vec<String>>,
    /// `true` if transaction relay is requested from peers.
    pub local_relay: bool,
    /// The time offset.
    pub time_offset: isize,
    /// The total number of connections.
    pub connections: usize,
    /// Whether p2p networking is enabled.
    pub network_active: bool,
    /// Information per network.
    pub networks: Vec<GetNetworkInfoNetwork>,
    /// Minimum relay fee rate for transactions, as a decimal string.
    pub relay_fee: String,
    /// Minimum fee rate increment for mempool limiting or replacement, as a
    /// decimal string.
    pub incremental_fee: String,
    /// List of local addresses.
    pub local_addresses: Vec<GetNetworkInfoAddress>,
    /// Any network and blockchain warnings.
    pub warnings: Vec<String>,
}

/// Error when converting a `GetNetworkInfo` type into the model type.
#[derive(Clone, Copy, Debug, PartialEq, Eq)]
pub enum GetNetworkInfoError {
    /// Conversion of the `relay_fee` field failed.
    RelayFee(AmountError),
    /// Conversion of the `incremental_fee` field failed.
    IncrementalFee(AmountError),
}

impl GetNetworkInfoError {
    /// The description this error shows: it names the failing field.
    pub open spec fn message_spec(self) -> Seq<char> {
        match self {
            GetNetworkInfoError::RelayFee(_) => "conversion of the `relay_fee` field failed"@,
            GetNetworkInfoError::IncrementalFee(
                _,
            ) => "conversion of the `incremental_fee` field failed"@,
        }
    }

    /// A stable, field-specific description of the failure.
    pub fn message(&self) -> (r: &'static str)
        ensures
            r@ == self.message_spec(),
    {
        match self {
            GetNetworkInfoError::RelayFee(_) => "conversion of the `relay_fee` field failed",
            GetNetworkInfoError::IncrementalFee(
                _,
            ) => "conversion of the `incremental_fee` field failed",
        }
    }
}

/// The error a `getnetworkinfo` conversion reports, if any: the first of
/// the two fee-rate fields, in declared order, whose amount is rejected.
/// All other fields are plain copies and cannot fail.
pub open spec fn network_info_error(relay_fee: Seq<char>, incremental_fee: Seq<char>) -> Option<
    GetNetworkInfoError,
> {
    match amount_result(relay_fee) {
        Err(e) => Some(GetNetworkInfoError::RelayFee(e)),
        Ok(_) => match amount_result(incremental_fee) {
            Err(e) => Some(GetNetworkInfoError::IncrementalFee(e)),
            Ok(_) => None,
        },
    }
}

impl GetNetworkInfo {
    /// Converts version specific type to a version nonspecific, more
    /// strongly typed type.
    ///
    /// The connection-count fields this version never sends come out absent,
    /// never defaulted; everything the wire carried is kept value for value.
    pub fn into_model(self) -> (r: Result<model::GetNetworkInfo, GetNetworkInfoError>)
        ensures
            r is Ok <==> network_info_error(self.relay_fee@, self.incremental_fee@) is None,
            r matches Err(GetNetworkInfoError::RelayFee(_)) <==> amount_result(
                self.relay_fee@,
            ) is Err,
            r matches Err(GetNetworkInfoError::IncrementalFee(_)) <==> (amount_result(
                self.relay_fee@,
            ) is Ok && amount_result(self.incremental_fee@) is Err),
            r matches Err(e) ==> ((is_ascii_seq(self.relay_fee@) && is_ascii_seq(
                self.incremental_fee@,
            )) ==> network_info_error(self.relay_fee@, self.incremental_fee@) == Some(e)),
            r matches Ok(m) ==> (m.version == self.version && m.subversion == self.subversion
                && m.protocol_version == self.protocol_version && m.local_services
                == self.local_services && m.local_services_names == self.local_services_names
                && m.local_relay == self.local_relay && m.time_offset == self.time_offset
                && m.connections == self.connections && m.connections_in is None
                && m.connections_out is None && m.network_active == self.network_active
                && m.networks@.len() == self.networks@.len() && (forall|j: int| #![auto]
                0 <= j < self.networks@.len() ==> m.networks@[j] == self.networks@[j].model_spec())
                && (m.relay_fee matches Some(f) && f.sat_per_kvb as int == sats_of(
                self.relay_fee@,
            )) && (m.incremental_fee matches Some(f) && f.sat_per_kvb as int == sats_of(
                self.incremental_fee@,
            )) && m.local_addresses@.len() == self.local_addresses@.len() && (forall|j: int|
                #![auto]
            0 <= j < self.local_addresses@.len() ==> m.local_addresses@[j]
                == self.local_addresses@[j].model_spec()) && m.warnings == self.warnings),
    {
        let relay_fee = match parse_fee_rate(self.relay_fee.as_str()) {
            Ok(f) => f,
            Err(e) => {
                return Err(GetNetworkInfoError::RelayFee(e));
            },
        };
        let incremental_fee = match parse_fee_rate(self.incremental_fee.as_str()) {
            Ok(f) => f,
            Err(e) => {
                return Err(GetNetworkInfoError::IncrementalFee(e));
            },
        };
        let networks = networks_into_model(self.networks);
        let local_addresses = addresses_into_model(self.local_addresses);
        Ok(
            model::GetNetworkInfo {
                version: self.version,
                subversion: self.subversion,
                protocol_version: self.protocol_version,
                local_services: self.local_services,
                local_services_names: self.local_services_names,
                local_relay: self.local_relay,
                time_offset: self.time_offset,
                connections: self.connections,
                connections_in: None,
                connections_out: None,
                network_active: self.network_active,
                networks,
                relay_fee: Some(relay_fee),
                incremental_fee: Some(incremental_fee),
                local_addresses,
                warnings: self.warnings,
            },
        )
    }
}

/// An item from the wire list returned by `getnodeaddresses`.
#[derive(Clone, Debug)]
pub struct NodeAddress {
    /// Timestamp in seconds since epoch (Jan 1 1970 GMT) when the node was
    /// last seen.
    pub time: u64,
    /// The services offered.
    pub services: u64,
    /// The address of the node, as text.
    pub address: String,
    /// The port of the node.
    pub port: u16,
}

/// Error when converting a `NodeAddress` type into the model type.
#[derive(Clone, Copy, Debug, PartialEq, Eq)]
pub enum NodeAddressError {
    /// Conversion of the `address` field failed.
    Address(AddressError),
}

impl NodeAddressError {
    /// The description this error shows: it names the failing field.
    pub open spec fn message_spec(self) -> Seq<char> {
        match self {
            NodeAddressError::Address(_) => "conversion of the `address` field failed"@,
        }
    }

    /// A stable, field-specific description of the failure.
    pub fn message(&self) -> (r: &'static str)
        ensures
            r@ == self.message_spec(),
    {
        match self {
            NodeAddressError::Address(_) => "conversion of the `address` field failed",
        }
    }
}

/// The model record matches the wire record: plain fields copied, the
/// address text kept as received, in its network-unverified state.
pub open spec fn node_matches(w: NodeAddress, m: model::NodeAddress) -> bool {
    &&& m.time == w.time
    &&& m.services == w.services
    &&& m.address.text@ == w.address@
    &&& m.port == w.port
}

impl NodeAddress {
    /// Converts version specific type to a version nonspecific, more
    /// strongly typed type.
    pub fn into_model(self) -> (r: Result<model::NodeAddress, NodeAddressError>)
        ensures
            r is Ok <==> addr_valid(self.address@),
            r matches Ok(m) ==> node_matches(self, m),
            r matches Err(e) ==> e == NodeAddressError::Address(AddressError::Invalid),
    {
        match parse_address(self.address) {
            Ok(a) => Ok(
                model::NodeAddress {
                    time: self.time,
                    services: self.services,
                    address: a,
                    port: self.port,
                },
            ),
            Err(e) => Err(NodeAddressError::Address(e)),
        }
    }
}

/// Result of JSON-RPC method `getnodeaddresses`: known addresses that can
/// potentially be used to find new nodes in the network.
#[derive(Clone, Debug)]
pub struct GetNodeAddresses(pub Vec<NodeAddress>);

impl GetNodeAddresses {
    /// Converts version specific type to a version nonspecific, more
    /// strongly typed type.
    ///
    /// Items are converted independently and in order; the first item whose
    /// address is not well-formed aborts the whole conversion.
    pub fn into_model(self) -> (r: Result<model::GetNodeAddresses, NodeAddressError>)
        ensures
            r is Ok <==> (forall|j: int| #![auto]
                0 <= j < self.0@.len() ==> addr_valid(self.0@[j].address@)),
            r matches Ok(m) ==> (m.0@.len() == self.0@.len() && (forall|j: int| #![auto]
                0 <= j < self.0@.len() ==> node_matches(self.0@[j], m.0@[j]))),
            r matches Err(e) ==> e == NodeAddressError::Address(AddressError::Invalid),
    {
        let ghost orig = self.0@;
        let mut items = self.0;
        let mut out: Vec<model::NodeAddress> = Vec::new();
        while items.len() > 0
            invariant
                self.0@ == orig,
                out@.len() + items@.len() == orig.len(),
                items@ == orig.skip(out@.len() as int),
                forall|j: int| #![auto] 0 <= j < out@.len() ==> addr_valid(orig[j].address@),
                forall|j: int| #![auto] 0 <= j < out@.len() ==> node_matches(orig[j], out@[j]),
            decreases items@.len(),
        {
            let ghost n = out@.len() as int;
            assert(orig.skip(n).remove(0) =~= orig.skip(n + 1));
            let w = items.remove(0);
            assert(w == orig[n]);
            match w.into_model() {
                Ok(m) => {
                    out.push(m);
                },
                Err(e) => {
                    return Err(e);
                },
            }
        }
        proof {
            assert(out@.len() == orig.len());
            assert forall|j: int| #![auto] 0 <= j < self.0@.len() implies addr_valid(
                self.0@[j].address@,
            ) && node_matches(self.0@[j], out@[j]) by {
                assert(addr_valid(orig[j].address@));
                assert(node_matches(orig[j], out@[j]));
            }
        }
        Ok(model::GetNodeAddresses(out))
    }
}

} // verus!
