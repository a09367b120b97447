//! Wire records for server version 26 — mining.
//!
//! Each struct mirrors, field for field, the JSON shape this server version
//! returns; its paired conversion function turns it into the canonical model
//! record or reports the first field that failed.

use vstd::prelude::*;

use crate::codec::all_hex;
use crate::codec::is_ascii_seq;
use crate::codec::parse_txid;
use crate::codec::txid_bytes;
use crate::codec::txid_result;
use crate::codec::HexError;
use crate::codec::Txid;
use crate::model;

verus! {

/// Result of the JSON-RPC method `getprioritisedtransactions`:
/// prioritisation keyed by transaction id, one entry per key, in the order
/// the wire object lists them.  The wire object is a map, so its keys are
/// unique; conversion does not depend on that.
#[derive(Clone, Debug)]
pub struct GetPrioritisedTransactions(pub Vec<(String, PrioritisedTransaction)>);

/// Prioritisation of one transaction, as this server version reports it.
#[derive(Clone, Copy, Debug)]
pub struct PrioritisedTransaction {
    /// Transaction fee delta in satoshis.
    pub fee_delta: i64,
    /// Whether this transaction is currently in mempool.
    pub in_mempool: bool,
}

impl PrioritisedTransaction {
    /// The model record this wire record denotes; both fields are plain
    /// copies, so this conversion cannot fail.
    pub open spec fn model_spec(self) -> model::PrioritisedTransaction {
        model::PrioritisedTransaction { fee_delta: self.fee_delta, in_mempool: self.in_mempool }
    }

    /// Converts version specific type to a version nonspecific, more
    /// strongly typed type.
    pub fn into_model(self) -> (r: model::PrioritisedTransaction)
        ensures
            r == self.model_spec(),
    {
        model::PrioritisedTransaction { fee_delta: self.fee_delta, in_mempool: self.in_mempool }
    }
}

/// A key that converts: exactly 64 hex digits.
pub open spec fn key_ok(s: Seq<char>) -> bool {
    s.len() == 64 && all_hex(s)
}

/// Every key of the entry sequence converts.
pub open spec fn keys_ok(entries: Seq<(String, PrioritisedTransaction)>) -> bool {
    forall|j: int| #![auto] 0 <= j < entries.len() ==> key_ok(entries[j].0@)
}

/// The model entries are the wire entries, in order: each key decoded to
/// its transaction identifier, each value converted.
pub open spec fn entries_match(
    w: Seq<(String, PrioritisedTransaction)>,
    m: Seq<(Txid, model::PrioritisedTransaction)>,
) -> bool {
    &&& m.len() == w.len()
    &&& forall|j: int| #![auto]
        0 <= j < w.len() ==> m[j].0.bytes@ == txid_bytes(w[j].0@) && m[j].1 == w[j].1.model_spec()
}

impl GetPrioritisedTransactions {
    /// Converts version specific type to a version nonspecific, more
    /// strongly typed type.
    ///
    /// Entries are converted independently and in order; a key that is not a
    /// well-formed transaction id aborts the whole conversion with that
    /// entry's decode error, so a malformed entry is never silently dropped.
    pub fn into_model(self) -> (r: Result<model::GetPrioritisedTransactions, HexError>)
        ensures
            r is Ok <==> keys_ok(self.0@),
            r matches Ok(m) ==> entries_match(self.0@, m.0@),
            r matches Err(e) ==> (exists|j: int| #![auto]
                0 <= j < self.0@.len() && !key_ok(self.0@[j].0@) && (forall|k: int| #![auto]
                    0 <= k < j ==> key_ok(self.0@[k].0@)) && (is_ascii_seq(self.0@[j].0@)
                    ==> txid_result(self.0@[j].0@) == Err::<Seq<u8>, HexError>(e))),
    {
        let ghost orig = self.0@;
        let mut entries = self.0;
        let mut out: Vec<(Txid, model::PrioritisedTransaction)> = Vec::new();
        while entries.len() > 0
            invariant
                self.0@ == orig,
                out@.len() + entries@.len() == orig.len(),
                entries@ == orig.skip(out@.len() as int),
                forall|j: int| 0 <= j < out@.len() ==> #[trigger] key_ok(orig[j].0@),
                forall|j: int| #![auto]
                    0 <= j < out@.len() ==> out@[j].0.bytes@ == txid_bytes(orig[j].0@)
                        && out@[j].1 == orig[j].1.model_spec(),
            decreases entries@.len(),
        {
            let ghost n = out@.len() as int;
            assert(orig.skip(n).remove(0) =~= orig.skip(n + 1));
            let (k, v) = entries.remove(0);
            assert(k == orig[n].0);
            match parse_txid(k.as_str()) {
                Ok(t) => {
                    out.push((t, v.into_model()));
                },
                Err(e) => {
                    proof {
                        assert(self.0@ == orig);
                        assert(0 <= n < self.0@.len());
                        assert(!key_ok(self.0@[n].0@));
                        assert(forall|k2: int| #![auto] 0 <= k2 < n ==> key_ok(self.0@[k2].0@));
                        assert(is_ascii_seq(self.0@[n].0@) ==> txid_result(self.0@[n].0@) == Err::<
                            Seq<u8>,
                            HexError,
                        >(e));
                    }
                    return Err(e);
                },
            }
        }
        proof {
            assert(entries@ =~= orig.skip(orig.len() as int));
            assert(out@.len() == orig.len());
            assert forall|j: int| 0 <= j < self.0@.len() implies #[trigger] key_ok(
                self.0@[j].0@,
            ) by {
                assert(key_ok(orig[j].0@));
            }
            assert forall|j: int| #![auto] 0 <= j < self.0@.len() implies out@[j].0.bytes@
                == txid_bytes(self.0@[j].0@) && out@[j].1 == self.0@[j].1.model_spec() by {
                assert(out@[j].0.bytes@ == txid_bytes(orig[j].0@));
                assert(out@[j].1 == orig[j].1.model_spec());
            }
            assert(keys_ok(self.0@));
            assert(entries_match(self.0@, out@));
        }
        Ok(model::GetPrioritisedTransactions(out))
    }
}

} // verus!
