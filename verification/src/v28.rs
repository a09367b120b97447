//! Wire records for server version 28 — network.
//!
//! From this version on the server also reports the inbound and outbound
//! connection counts.  They arrive as optional values: `None` means the
//! field was not supplied, and conversion keeps that distinction instead of
//! inventing a default.  The per-network and local-address items are
//! unchanged since version 19, so this module reuses those wire types.

use vstd::prelude::*;

use crate::codec::amount_result;
use crate::codec::is_ascii_seq;
use crate::codec::parse_fee_rate;
use crate::codec::sats_of;
use crate::model;
use crate::v19::addresses_into_model;
use crate::v19::network_info_error;
use crate::v19::networks_into_model;
use crate::v19::GetNetworkInfoAddress;
use crate::v19::GetNetworkInfoError;
use crate::v19::GetNetworkInfoNetwork;

verus! {

/// Result of JSON-RPC method `getnetworkinfo`, as this server version sends
/// it.  Identical to the earlier shape except for the two version-gated
/// connection-count fields.
#[derive(Clone, Debug)]
pub struct GetNetworkInfo {
    /// The server version.
    pub version: usize,
    /// The server subversion string.
    pub subversion: String,
    /// The protocol version.
    pub protocol_version: usize,
    /// The services we offer to the network (hex string).
    pub local_services: String,
    /// The services we offer to the network, by name.
    pub local_services_names: Option<Vec<String>>,
    /// `true` if transaction relay is requested from peers.
    pub local_relay: bool,
    /// The time offset.
    pub time_offset: isize,
    /// The total number of connections.
    pub connections: usize,
    /// The number of inbound connections.  First sent by this version.
    pub connections_in: Option<usize>,
    /// The number of outbound connections.  First sent by this version.
    pub connections_out: Option<usize>,
    /// Whether p2p networking is enabled.
    pub network_active: bool,
    /// Information per network.
    pub networks: Vec<GetNetworkInfoNetwork>,
    /// Minimum relay fee rate for transactions, as a decimal string.
    pub relay_fee: String,
    /// Minimum fee rate increment for mempool limiting or replacement, as a
    /// decimal string.
    pub incremental_fee: String,
    /// List of local addresses.
    pub local_addresses: Vec<GetNetworkInfoAddress>,
    /// Any network and blockchain warnings.
    pub warnings: Vec<String>,
}

impl GetNetworkInfo {
    /// Converts version specific type to a version nonspecific, more
    /// strongly typed type.
    ///
    /// The optional connection counts map to the model one-to-one: a count
    /// the server did not supply stays absent, a supplied count is kept,
    /// so absence never collapses into a default value.
    pub fn into_model(self) -> (r: Result<model::GetNetworkInfo, GetNetworkInfoError>)
        ensures
            r is Ok <==> network_info_error(self.relay_fee@, self.incremental_fee@) is None,
            r matches Err(GetNetworkInfoError::RelayFee(_)) <==> amount_result(
                self.relay_fee@,
            ) is Err,
            r matches Err(GetNetworkInfoError::IncrementalFee(_)) <==> (amount_result(
                self.relay_fee@,
            ) is Ok && amount_result(self.incremental_fee@) is Err),
            r matches Err(e) ==> ((is_ascii_seq(self.relay_fee@) && is_ascii_seq(
                self.incremental_fee@,
            )) ==> network_info_error(self.relay_fee@, self.incremental_fee@) == Some(e)),
            r matches Ok(m) ==> (m.version == self.version && m.subversion == self.subversion
                && m.protocol_version == self.protocol_version && m.local_services
                == self.local_services && m.local_services_names == self.local_services_names
                && m.local_relay == self.local_relay && m.time_offset == self.time_offset
                && m.connections == self.connections && m.connections_in == self.connections_in
                && m.connections_out == self.connections_out && m.network_active
                == self.network_active && m.networks@.len() == self.networks@.len() && (forall|
                j: int,
            |
                #![auto]
            0 <= j < self.networks@.len() ==> m.networks@[j] == self.networks@[j].model_spec()) && (
            m.relay_fee matches Some(f) && f.sat_per_kvb as int == sats_of(self.relay_fee@)) && (
            m.incremental_fee matches Some(f) && f.sat_per_kvb as int == sats_of(
                self.incremental_fee@,
            )) && m.local_addresses@.len() == self.local_addresses@.len() && (forall|j: int|
                #![auto]
            0 <= j < self.local_addresses@.len() ==> m.local_addresses@[j]
                == self.local_addresses@[j].model_spec()) && m.warnings == self.warnings),
    {
        let relay_fee = match parse_fee_rate(self.relay_fee.as_str()) {
            Ok(f) => f,
            Err(e) => {
                return Err(GetNetworkInfoError::RelayFee(e));
            },
        };
        let incremental_fee = match parse_fee_rate(self.incremental_fee.as_str()) {
            Ok(f) => f,
            Err(e) => {
                return Err(GetNetworkInfoError::IncrementalFee(e));
            },
        };
        let networks = networks_into_model(self.networks);
        let local_addresses = addresses_into_model(self.local_addresses);
        Ok(
            model::GetNetworkInfo {
                version: self.version,
                subversion: self.subversion,
                protocol_version: self.protocol_version,
                local_services: self.local_services,
                local_services_names: self.local_services_names,
                local_relay: self.local_relay,
                time_offset: self.time_offset,
                connections: self.connections,
                connections_in: self.connections_in,
                connections_out: self.connections_out,
                network_active: self.network_active,
                networks,
                relay_fee: Some(relay_fee),
                incremental_fee: Some(incremental_fee),
                local_addresses,
                warnings: self.warnings,
            },
        )
    }
}

} // verus!
