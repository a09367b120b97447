//! End-to-end tests of the primitive codec and the per-version conversions.

use corepc_types::codec::{parse_address, parse_amount, parse_fee_rate, parse_txid};
use corepc_types::codec::{AddressError, AmountError, HexError};
use corepc_types::{v19, v26, v28};

const MAX_MONEY_SATS: u64 = 2_100_000_000_000_000;

// ---- primitive codec: amounts ----

#[test]
fn amount_minimum_unit() {
    let a = parse_amount("0.00000001").unwrap();
    assert_eq!(a.sats, 1);
}

#[test]
fn amount_one_above_maximum_is_out_of_range() {
    assert_eq!(parse_amount("21000000.00000001"), Err(AmountError::OutOfRange));
}

#[test]
fn amount_maximum_is_accepted() {
    let a = parse_amount("21000000").unwrap();
    assert_eq!(a.sats, MAX_MONEY_SATS);
}

#[test]
fn amount_whole_coin_scales() {
    assert_eq!(parse_amount("1").unwrap().sats, 100_000_000);
    assert_eq!(parse_amount("1.").unwrap().sats, 100_000_000);
    assert_eq!(parse_amount("0.5").unwrap().sats, 50_000_000);
}

#[test]
fn amount_malformed_inputs() {
    assert_eq!(parse_amount(""), Err(AmountError::Malformed));
    assert_eq!(parse_amount("abc"), Err(AmountError::Malformed));
    assert_eq!(parse_amount("1.2.3"), Err(AmountError::Malformed));
    assert_eq!(parse_amount("1,5"), Err(AmountError::Malformed));
    assert_eq!(parse_amount("-"), Err(AmountError::Malformed));
}

#[test]
fn amount_negative_is_out_of_range() {
    assert_eq!(parse_amount("-1"), Err(AmountError::OutOfRange));
    assert_eq!(parse_amount("-0"), Err(AmountError::OutOfRange));
}

#[test]
fn amount_ninth_fractional_digit_is_too_precise() {
    assert_eq!(parse_amount("0.000000001"), Err(AmountError::TooPrecise));
    assert_eq!(parse_amount("1.000000001"), Err(AmountError::TooPrecise));
}

#[test]
fn amount_reencode_and_reparse_is_identity() {
    for sats in [1u64, 100_000_000, 123_456_789, MAX_MONEY_SATS] {
        let text = bitcoin::Amount::from_sat(sats)
            .to_string_in(bitcoin::Denomination::Bitcoin);
        let back = parse_amount(&text).unwrap();
        assert_eq!(back.sats, sats);
    }
}

#[test]
fn fee_rate_parses_like_an_amount() {
    let f = parse_fee_rate("0.00001000").unwrap();
    assert_eq!(f.sat_per_kvb, 1000);
    assert_eq!(parse_fee_rate("bogus"), Err(AmountError::Malformed));
}

// ---- primitive codec: transaction identifiers ----

fn hex_key(fill: char, last_two: &str) -> String {
    let mut s: String = std::iter::repeat(fill).take(62).collect();
    s.push_str(last_two);
    s
}

#[test]
fn txid_valid_hex_decodes_reversed() {
    // Display order ends in "01", so the internal bytes start with 0x01.
    let t = parse_txid(&hex_key('0', "01")).unwrap();
    assert_eq!(t.bytes.len(), 32);
    assert_eq!(t.bytes[0], 0x01);
    assert_eq!(t.bytes[31], 0x00);
}

#[test]
fn txid_sixty_three_digits_is_length_mismatch() {
    let s: String = std::iter::repeat('0').take(63).collect();
    assert_eq!(parse_txid(&s), Err(HexError::InvalidLength));
}

#[test]
fn txid_bad_digit_is_invalid_char() {
    assert_eq!(parse_txid(&hex_key('0', "0g")), Err(HexError::InvalidChar));
}

#[test]
fn txid_hex_is_case_insensitive() {
    let upper: String = std::iter::repeat("AB").take(32).collect();
    let t = parse_txid(&upper).unwrap();
    assert_eq!(t.bytes[0], 0xab);
    assert_eq!(t.bytes[31], 0xab);
}

#[test]
fn txid_reencode_and_reparse_is_identity() {
    let mut display = String::new();
    let t = parse_txid(&hex_key('a', "7f")).unwrap();
    for b in t.bytes.iter().rev() {
        display.push_str(&format!("{:02x}", b));
    }
    assert_eq!(display, hex_key('a', "7f"));
    let again = parse_txid(&display).unwrap();
    assert_eq!(again.bytes, t.bytes);
}

// ---- primitive codec: addresses ----

#[test]
fn address_known_forms_are_accepted() {
    let bech32 = "bc1qw508d6qejxtdg4y5r3zarvary0c5xw7kv8f3t4";
    let a = parse_address(bech32.to_string()).unwrap();
    assert_eq!(a.text, bech32);
    let base58 = "1A1zP1eP5QGefi2DMPTfTL5SLmv7DivfNa";
    let b = parse_address(base58.to_string()).unwrap();
    assert_eq!(b.text, base58);
}

#[test]
fn address_garbage_is_rejected() {
    assert_eq!(parse_address("notanaddress".to_string()), Err(AddressError::Invalid));
    assert_eq!(parse_address(String::new()), Err(AddressError::Invalid));
}

// ---- getbalances (v19) ----

#[test]
fn balances_valid_record_converts_field_for_field() {
    let wire = v19::GetBalances {
        mine: "0.5".to_string(),
        watchonly: Some("0.25".to_string()),
    };
    let m = wire.into_model().unwrap();
    assert_eq!(m.mine.sats, 50_000_000);
    assert_eq!(m.watchonly.unwrap().sats, 25_000_000);
}

#[test]
fn balances_absent_watchonly_stays_absent() {
    let wire = v19::GetBalances { mine: "1".to_string(), watchonly: None };
    let m = wire.into_model().unwrap();
    assert_eq!(m.mine.sats, 100_000_000);
    assert!(m.watchonly.is_none());
}

#[test]
fn balances_empty_string_is_not_absence() {
    let wire = v19::GetBalances { mine: "1".to_string(), watchonly: Some(String::new()) };
    assert_eq!(
        wire.into_model().unwrap_err(),
        v19::GetBalancesError::WatchOnly(AmountError::Malformed)
    );
}

#[test]
fn balances_mine_failure_names_mine() {
    let wire = v19::GetBalances { mine: "x".to_string(), watchonly: Some("1".to_string()) };
    assert_eq!(wire.into_model().unwrap_err(), v19::GetBalancesError::Mine(AmountError::Malformed));
}

#[test]
fn balances_watchonly_failure_names_watchonly() {
    let wire = v19::GetBalances {
        mine: "1".to_string(),
        watchonly: Some("21000000.00000001".to_string()),
    };
    assert_eq!(
        wire.into_model().unwrap_err(),
        v19::GetBalancesError::WatchOnly(AmountError::OutOfRange)
    );
}

#[test]
fn balances_first_malformed_field_wins_deterministically() {
    for _ in 0..3 {
        let wire = v19::GetBalances {
            mine: "0.000000001".to_string(),
            watchonly: Some("junk".to_string()),
        };
        assert_eq!(
            wire.into_model().unwrap_err(),
            v19::GetBalancesError::Mine(AmountError::TooPrecise)
        );
    }
}

// ---- getnetworkinfo (v19 and v28) ----

fn network_info_v19() -> v19::GetNetworkInfo {
    v19::GetNetworkInfo {
        version: 190100,
        subversion: "/Satoshi:0.19.1/".to_string(),
        protocol_version: 70015,
        local_services: "0000000000000409".to_string(),
        local_services_names: Some(vec!["NETWORK".to_string(), "WITNESS".to_string()]),
        local_relay: true,
        time_offset: -2,
        connections: 10,
        network_active: true,
        networks: vec![v19::GetNetworkInfoNetwork {
            name: "ipv4".to_string(),
            limited: false,
            reachable: true,
            proxy: String::new(),
            proxy_randomize_credentials: false,
        }],
        relay_fee: "0.00001000".to_string(),
        incremental_fee: "0.00001000".to_string(),
        local_addresses: vec![v19::GetNetworkInfoAddress {
            address: "203.0.113.7".to_string(),
            port: 8333,
            score: 4,
        }],
        warnings: vec!["".to_string()],
    }
}

#[test]
fn network_info_valid_record_converts_field_for_field() {
    let m = network_info_v19().into_model().unwrap();
    assert_eq!(m.version, 190100);
    assert_eq!(m.subversion, "/Satoshi:0.19.1/");
    assert_eq!(m.protocol_version, 70015);
    assert_eq!(m.local_services, "0000000000000409");
    assert_eq!(
        m.local_services_names,
        Some(vec!["NETWORK".to_string(), "WITNESS".to_string()])
    );
    assert!(m.local_relay);
    assert_eq!(m.time_offset, -2);
    assert_eq!(m.connections, 10);
    assert!(m.network_active);
    assert_eq!(m.networks.len(), 1);
    assert_eq!(m.networks[0].name, "ipv4");
    assert!(m.networks[0].reachable);
    assert_eq!(m.relay_fee.unwrap().sat_per_kvb, 1000);
    assert_eq!(m.incremental_fee.unwrap().sat_per_kvb, 1000);
    assert_eq!(m.local_addresses.len(), 1);
    assert_eq!(m.local_addresses[0].address, "203.0.113.7");
    assert_eq!(m.local_addresses[0].port, 8333);
    assert_eq!(m.local_addresses[0].score, 4);
    assert_eq!(m.warnings, vec!["".to_string()]);
}

#[test]
fn network_info_older_version_leaves_connection_counts_absent() {
    let m = network_info_v19().into_model().unwrap();
    assert!(m.connections_in.is_none());
    assert!(m.connections_out.is_none());
}

#[test]
fn network_info_relay_fee_failure_names_relay_fee() {
    let mut wire = network_info_v19();
    wire.relay_fee = "not-a-number".to_string();
    assert_eq!(
        wire.into_model().unwrap_err(),
        v19::GetNetworkInfoError::RelayFee(AmountError::Malformed)
    );
}

#[test]
fn network_info_incremental_fee_failure_names_incremental_fee() {
    let mut wire = network_info_v19();
    wire.incremental_fee = "0.000000001".to_string();
    assert_eq!(
        wire.into_model().unwrap_err(),
        v19::GetNetworkInfoError::IncrementalFee(AmountError::TooPrecise)
    );
}

#[test]
fn network_info_earlier_fee_field_wins() {
    let mut wire = network_info_v19();
    wire.relay_fee = "x".to_string();
    wire.incremental_fee = "y".to_string();
    assert_eq!(
        wire.into_model().unwrap_err(),
        v19::GetNetworkInfoError::RelayFee(AmountError::Malformed)
    );
}

fn network_info_v28(connections_in: Option<usize>) -> v28::GetNetworkInfo {
    v28::GetNetworkInfo {
        version: 280000,
        subversion: "/Satoshi:28.0.0/".to_string(),
        protocol_version: 70016,
        local_services: "0000000000000409".to_string(),
        local_services_names: Some(vec!["NETWORK".to_string()]),
        local_relay: true,
        time_offset: 0,
        connections: 8,
        connections_in,
        connections_out: Some(3),
        network_active: true,
        networks: vec![],
        relay_fee: "0.00001000".to_string(),
        incremental_fee: "0.00001000".to_string(),
        local_addresses: vec![],
        warnings: vec![],
    }
}

#[test]
fn network_info_gated_field_present_is_kept() {
    let m = network_info_v28(Some(5)).into_model().unwrap();
    assert_eq!(m.connections_in, Some(5));
    assert_eq!(m.connections_out, Some(3));
}

#[test]
fn network_info_gated_field_missing_stays_absent() {
    let m = network_info_v28(None).into_model().unwrap();
    assert!(m.connections_in.is_none());
    assert_eq!(m.connections_out, Some(3));
}

// ---- getnodeaddresses (v19) ----

#[test]
fn node_addresses_valid_records_convert() {
    let wire = v19::GetNodeAddresses(vec![
        v19::NodeAddress {
            time: 1700000000,
            services: 1033,
            address: "bc1qw508d6qejxtdg4y5r3zarvary0c5xw7kv8f3t4".to_string(),
            port: 8333,
        },
        v19::NodeAddress {
            time: 1700000001,
            services: 1,
            address: "1A1zP1eP5QGefi2DMPTfTL5SLmv7DivfNa".to_string(),
            port: 8334,
        },
    ]);
    let m = wire.into_model().unwrap();
    assert_eq!(m.0.len(), 2);
    assert_eq!(m.0[0].time, 1700000000);
    assert_eq!(m.0[0].services, 1033);
    assert_eq!(m.0[0].address.text, "bc1qw508d6qejxtdg4y5r3zarvary0c5xw7kv8f3t4");
    assert_eq!(m.0[0].port, 8333);
    assert_eq!(m.0[1].address.text, "1A1zP1eP5QGefi2DMPTfTL5SLmv7DivfNa");
}

#[test]
fn node_addresses_bad_address_fails_whole_conversion() {
    let wire = v19::GetNodeAddresses(vec![v19::NodeAddress {
        time: 0,
        services: 0,
        address: "nonsense".to_string(),
        port: 0,
    }]);
    assert_eq!(
        wire.into_model().unwrap_err(),
        v19::NodeAddressError::Address(AddressError::Invalid)
    );
}

// ---- getprioritisedtransactions (v26) ----

#[test]
fn prioritised_transaction_copies_both_fields() {
    let m = v26::PrioritisedTransaction { fee_delta: -500, in_mempool: true }.into_model();
    assert_eq!(m.fee_delta, -500);
    assert!(m.in_mempool);
}

#[test]
fn prioritised_transactions_keep_the_whole_key_set() {
    let key_a = hex_key('a', "aa");
    let key_b = hex_key('b', "01");
    let wire = v26::GetPrioritisedTransactions(vec![
        (key_a.clone(), v26::PrioritisedTransaction { fee_delta: 100, in_mempool: true }),
        (key_b.clone(), v26::PrioritisedTransaction { fee_delta: -7, in_mempool: false }),
    ]);
    let m = wire.into_model().unwrap();
    assert_eq!(m.0.len(), 2);
    // Re-encoding each converted key yields the input key set, in order.
    for (entry, expected) in m.0.iter().zip([&key_a, &key_b]) {
        let mut display = String::new();
        for b in entry.0.bytes.iter().rev() {
            display.push_str(&format!("{:02x}", b));
        }
        assert_eq!(&display, expected);
    }
    assert_eq!(m.0[0].1.fee_delta, 100);
    assert!(m.0[0].1.in_mempool);
    assert_eq!(m.0[1].1.fee_delta, -7);
    assert!(!m.0[1].1.in_mempool);
}

#[test]
fn prioritised_transactions_bad_key_fails_whole_conversion() {
    let short: String = std::iter::repeat('c').take(63).collect();
    let wire = v26::GetPrioritisedTransactions(vec![
        (short, v26::PrioritisedTransaction { fee_delta: 1, in_mempool: false }),
    ]);
    assert_eq!(wire.into_model().unwrap_err(), HexError::InvalidLength);
}

#[test]
fn prioritised_transactions_first_bad_key_decides() {
    let good = hex_key('0', "00");
    let short: String = std::iter::repeat('c').take(63).collect();
    let bad_char = hex_key('0', "0z");
    let wire = v26::GetPrioritisedTransactions(vec![
        (good, v26::PrioritisedTransaction { fee_delta: 0, in_mempool: false }),
        (short, v26::PrioritisedTransaction { fee_delta: 0, in_mempool: false }),
        (bad_char, v26::PrioritisedTransaction { fee_delta: 0, in_mempool: false }),
    ]);
    assert_eq!(wire.into_model().unwrap_err(), HexError::InvalidLength);
}

// ---- error descriptions name the failing field ----

#[test]
fn error_messages_are_field_specific() {
    let e = v19::GetBalancesError::Mine(AmountError::Malformed);
    assert_eq!(e.message(), "conversion of the `mine` field failed");
    let e = v19::GetBalancesError::WatchOnly(AmountError::OutOfRange);
    assert_eq!(e.message(), "conversion of the `watchonly` field failed");
    let e = v19::GetNetworkInfoError::RelayFee(AmountError::Malformed);
    assert_eq!(e.message(), "conversion of the `relay_fee` field failed");
    let e = v19::GetNetworkInfoError::IncrementalFee(AmountError::TooPrecise);
    assert_eq!(e.message(), "conversion of the `incremental_fee` field failed");
    let e = v19::NodeAddressError::Address(AddressError::Invalid);
    assert_eq!(e.message(), "conversion of the `address` field failed");
}

// ---- model records are plain values ----

#[test]
fn model_records_expose_plain_values() {
    let m = corepc_types::model::GetBalances {
        mine: corepc_types::model::Amount { sats: 42 },
        watchonly: None,
    };
    assert_eq!(m.mine.sats, 42);
}
