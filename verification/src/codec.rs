//! Primitive codec: parsing of scalar wire values into canonical value types.
//!
//! Each parser is a pure function from a textual wire representation to a
//! domain value, with a parse-failure kind specific to that primitive.  The
//! actual decoding is done by the `bitcoin` crate; the contracts here state,
//! over sequences of characters, exactly which strings are accepted and what
//! value they denote.

use vstd::prelude::*;

verus! {

/// Satoshis in the largest representable monetary amount (21 million coins).
pub const MAX_MONEY_SATS: u64 = 2_100_000_000_000_000;

/// Why a decimal amount string was rejected.
#[derive(Clone, Copy, Debug, PartialEq, Eq)]
pub enum AmountError {
    /// Not a decimal number: empty, overlong, a stray sign or dot, or a
    /// character that is neither a digit nor a single decimal point.
    Malformed,
    /// More fractional digits than the minimum monetary unit can carry.
    TooPrecise,
    /// Magnitude out of range: negative or above the largest amount.
    OutOfRange,
}

/// Why a hex identifier string was rejected.
#[derive(Clone, Copy, Debug, PartialEq, Eq)]
pub enum HexError {
    /// A character outside `0-9a-fA-F`.
    InvalidChar,
    /// Not exactly the expected number of hex digits.
    InvalidLength,
}

/// Why an address string was rejected.
#[derive(Clone, Copy, Debug, PartialEq, Eq)]
pub enum AddressError {
    /// Not a well-formed address in any encoding the node emits.
    Invalid,
}

/// A monetary amount as a count of the minimum unit (satoshis).
#[derive(Clone, Copy, Debug, PartialEq, Eq)]
pub struct Amount {
    /// Satoshis; at most [`MAX_MONEY_SATS`].
    pub sats: u64,
}

impl Amount {
    /// The amount is within the monetary range.
    pub open spec fn wf(self) -> bool {
        self.sats <= MAX_MONEY_SATS
    }
}

/// A fee rate in satoshis per 1000 virtual bytes, as the node reports it.
#[derive(Clone, Copy, Debug, PartialEq, Eq)]
pub struct FeeRate {
    /// Satoshis per 1000 virtual bytes; at most [`MAX_MONEY_SATS`].
    pub sat_per_kvb: u64,
}

impl FeeRate {
    /// The rate is within the monetary range.
    pub open spec fn wf(self) -> bool {
        self.sat_per_kvb <= MAX_MONEY_SATS
    }
}

/// A transaction identifier: 32 bytes, stored in internal byte order
/// (the reverse of the order in which its hex form displays them).
#[derive(Clone, Debug, PartialEq, Eq)]
pub struct Txid {
    /// The 32 bytes of the identifier.
    pub bytes: Vec<u8>,
}

impl Txid {
    /// The identifier holds exactly 32 bytes.
    pub open spec fn wf(self) -> bool {
        self.bytes@.len() == 32
    }
}

/// An address whose text is well-formed but which has not been checked
/// against any particular network.  The wire response does not say which
/// network it belongs to, so that validation is deliberately left to the
/// caller; this type keeps the "network not yet verified" state explicit.
#[derive(Clone, Debug, PartialEq, Eq)]
pub struct AddressUnchecked {
    /// The address text exactly as received.
    pub text: String,
}

impl AddressUnchecked {
    /// The text parses as an address.
    pub open spec fn wf(self) -> bool {
        addr_valid(self.text@)
    }
}

/// Whether a string is a well-formed address.  Addresses have several
/// textual encodings whose validity depends on the characters alone; the
/// decision is delegated to the `bitcoin` crate and only named here.
pub uninterp spec fn addr_valid(s: Seq<char>) -> bool;

/// A decimal digit.
pub open spec fn is_digit(c: char) -> bool {
    '0' <= c && c <= '9'
}

/// Numeric value of a decimal digit.
pub open spec fn digit_val(c: char) -> int {
    c as u32 - 48
}

/// An ASCII character.
pub open spec fn is_ascii_char(c: char) -> bool {
    (c as u32) < 128
}

/// Every character of the sequence is ASCII.
pub open spec fn is_ascii_seq(s: Seq<char>) -> bool {
    forall|i: int| 0 <= i < s.len() ==> is_ascii_char(#[trigger] s[i])
}

/// Ten to the `n`th power (one for `n <= 0`).
pub open spec fn pow10(n: int) -> int
    decreases n,
{
    if n <= 0 {
        1
    } else {
        10 * pow10(n - 1)
    }
}

/// Whether a decimal point occurs strictly before position `i`.
pub open spec fn has_dot_before(s: Seq<char>, i: int) -> bool {
    exists|j: int| 0 <= j < i && s[j] == '.'
}

/// How many digits strictly before position `i` stand after a decimal point.
pub open spec fn frac_digits_before(s: Seq<char>, i: int) -> int
    decreases i,
{
    if i <= 0 {
        0
    } else {
        frac_digits_before(s, i - 1) + if is_digit(s[i - 1]) && has_dot_before(s, i - 1) {
            1int
        } else {
            0int
        }
    }
}

/// The value of all digits strictly before position `i`, read left to right
/// with the decimal point skipped.  This is the accumulator a left-to-right
/// decimal scan holds after `i` characters.
pub open spec fn digits_val_before(s: Seq<char>, i: int) -> int
    decreases i,
{
    if i <= 0 {
        0
    } else if is_digit(s[i - 1]) {
        digits_val_before(s, i - 1) * 10 + digit_val(s[i - 1])
    } else {
        digits_val_before(s, i - 1)
    }
}

/// The offence, if any, that a left-to-right decimal scan reports at
/// position `i`: a character that is neither digit nor dot, a second dot, a
/// digit that overflows a 64-bit accumulator, or a ninth fractional digit.
pub open spec fn amount_offence_at(s: Seq<char>, i: int) -> Option<AmountError> {
    if !is_digit(s[i]) && s[i] != '.' {
        Some(AmountError::Malformed)
    } else if s[i] == '.' && has_dot_before(s, i) {
        Some(AmountError::Malformed)
    } else if is_digit(s[i]) && digits_val_before(s, i + 1) > u64::MAX as int {
        Some(AmountError::OutOfRange)
    } else if is_digit(s[i]) && has_dot_before(s, i) && frac_digits_before(s, i) >= 8 {
        Some(AmountError::TooPrecise)
    } else {
        None
    }
}

/// The first offence a left-to-right decimal scan reports at or after
/// position `i`, if any.
pub open spec fn amount_scan(s: Seq<char>, i: int) -> Option<AmountError>
    decreases s.len() - i,
{
    if i < 0 || i >= s.len() {
        None
    } else if amount_offence_at(s, i) is Some {
        amount_offence_at(s, i)
    } else {
        amount_scan(s, i + 1)
    }
}

/// The satoshi value a decimal string denotes: all its digits read as one
/// number, scaled so that eight fractional digits reach the minimum unit.
pub open spec fn sats_of(s: Seq<char>) -> int {
    digits_val_before(s, s.len() as int) * pow10(8 - frac_digits_before(s, s.len() as int))
}

/// The strings the amount parser accepts: between one and fifty characters,
/// a clean scan (digits and at most one dot, at most eight fractional
/// digits, no 64-bit overflow), and a scaled value that fits in 64 bits.
pub open spec fn amount_ok(s: Seq<char>) -> bool {
    &&& 1 <= s.len() <= 50
    &&& amount_scan(s, 0) is None
    &&& sats_of(s) <= u64::MAX as int
}

/// What the underlying decimal parser returns for a string: the satoshi
/// value, or the first failure in reading order.  A leading minus sign is
/// consumed first; whatever follows it, the result is never a valid amount,
/// since amounts are unsigned.
pub open spec fn amount_wire_result(s: Seq<char>) -> Result<int, AmountError> {
    if s.len() < 1 || s.len() > 50 {
        Err(AmountError::Malformed)
    } else if s[0] == '-' {
        if s.len() == 1 {
            Err(AmountError::Malformed)
        } else {
            match amount_scan(s.skip(1), 0) {
                Some(e) => Err(e),
                None => Err(AmountError::OutOfRange),
            }
        }
    } else {
        match amount_scan(s, 0) {
            Some(e) => Err(e),
            None => if sats_of(s) > u64::MAX as int {
                Err(AmountError::OutOfRange)
            } else {
                Ok(sats_of(s))
            },
        }
    }
}

/// What [`parse_amount`] returns: the wire parser's result, with values
/// above the largest monetary amount rejected as out of range.
pub open spec fn amount_result(s: Seq<char>) -> Result<int, AmountError> {
    match amount_wire_result(s) {
        Ok(v) => if v > MAX_MONEY_SATS as int {
            Err(AmountError::OutOfRange)
        } else {
            Ok(v)
        },
        Err(e) => Err(e),
    }
}

/// Relies on `bitcoin::Amount::from_str_in` with the whole-coin denomination:
/// it scans the string left to right, accepting digits and at most one
/// decimal point with at most eight fractional digits, accumulates satoshis
/// in 64 bits, rejects empty or over-fifty-byte input and a leading minus
/// sign (amounts are unsigned), and reports the first failure it meets.
/// The error kind is stated only for ASCII input, where byte and character
/// positions agree.
#[verifier::external_body]
fn btc_amount_from_text(s: &str) -> (r: Result<u64, AmountError>)
    ensures
        r is Ok <==> amount_ok(s@),
        r matches Ok(v) ==> v as int == sats_of(s@),
        r matches Err(e) ==> (is_ascii_seq(s@) ==> amount_wire_result(s@) == Err::<int, AmountError>(e)),
{
    match bitcoin::Amount::from_str_in(s, bitcoin::Denomination::Bitcoin) {
        Ok(a) => Ok(a.to_sat()),
        Err(bitcoin::amount::ParseAmountError::OutOfRange(_)) => Err(AmountError::OutOfRange),
        Err(bitcoin::amount::ParseAmountError::TooPrecise(_)) => Err(AmountError::TooPrecise),
        Err(bitcoin::amount::ParseAmountError::MissingDigits(_)) => Err(AmountError::Malformed),
        Err(bitcoin::amount::ParseAmountError::InputTooLarge(_)) => Err(AmountError::Malformed),
        Err(bitcoin::amount::ParseAmountError::InvalidCharacter(_)) => Err(AmountError::Malformed),
        Err(_) => Err(AmountError::Malformed),
    }
}

/// Parses a decimal amount string into satoshis.
///
/// Accepts exactly the well-formed decimal strings whose value is at most
/// [`MAX_MONEY_SATS`]; the error names the first failure in reading order.
pub fn parse_amount(s: &str) -> (r: Result<Amount, AmountError>)
    ensures
        r is Ok <==> amount_result(s@) is Ok,
        r matches Ok(a) ==> (a.wf() && amount_result(s@) == Ok::<int, AmountError>(a.sats as int)),
        r matches Err(e) ==> (is_ascii_seq(s@) ==> amount_result(s@) == Err::<int, AmountError>(e)),
{
    proof {
        lemma_amount_result(s@);
    }
    match btc_amount_from_text(s) {
        Ok(v) => {
            if v > MAX_MONEY_SATS {
                Err(AmountError::OutOfRange)
            } else {
                Ok(Amount { sats: v })
            }
        },
        Err(e) => Err(e),
    }
}

/// The amount parser's result is `Ok` exactly on an accepted scan whose
/// value is within the monetary range, and then it is the string's value.
pub proof fn lemma_amount_result(s: Seq<char>)
    ensures
        amount_result(s) is Ok <==> (amount_ok(s) && sats_of(s) <= MAX_MONEY_SATS as int),
        amount_result(s) is Ok ==> amount_result(s) == Ok::<int, AmountError>(sats_of(s)),
{
    if amount_ok(s) && s.len() >= 1 && s[0] == '-' {
        assert(amount_offence_at(s, 0) is Some);
        assert(amount_scan(s, 0) is Some);
    }
}

/// Parses a decimal fee-rate string (coins per 1000 virtual bytes) into
/// satoshis per 1000 virtual bytes.
pub fn parse_fee_rate(s: &str) -> (r: Result<FeeRate, AmountError>)
    ensures
        r is Ok <==> amount_result(s@) is Ok,
        r matches Ok(f) ==> (f.wf() && amount_result(s@) == Ok::<int, AmountError>(
            f.sat_per_kvb as int,
        )),
        r matches Err(e) ==> (is_ascii_seq(s@) ==> amount_result(s@) == Err::<int, AmountError>(e)),
{
    match parse_amount(s) {
        Ok(a) => Ok(FeeRate { sat_per_kvb: a.sats }),
        Err(e) => Err(e),
    }
}

/// A hexadecimal digit, either case.
pub open spec fn is_hex_digit(c: char) -> bool {
    ('0' <= c && c <= '9') || ('a' <= c && c <= 'f') || ('A' <= c && c <= 'F')
}

/// Numeric value of a hexadecimal digit.
pub open spec fn hex_val(c: char) -> int {
    if '0' <= c && c <= '9' {
        c as u32 - 48
    } else if 'a' <= c && c <= 'f' {
        c as u32 - 87
    } else {
        c as u32 - 55
    }
}

/// Every character of the sequence is a hexadecimal digit.
pub open spec fn all_hex(s: Seq<char>) -> bool {
    forall|i: int| 0 <= i < s.len() ==> is_hex_digit(#[trigger] s[i])
}

/// The bytes a hex string denotes, two digits to a byte, high digit first.
pub open spec fn hex_bytes(s: Seq<char>) -> Seq<u8> {
    Seq::new((s.len() / 2) as nat, |i: int| (16 * hex_val(s[2 * i]) + hex_val(s[2 * i + 1])) as u8)
}

/// A sequence of bytes in reverse order.
pub open spec fn rev_bytes(b: Seq<u8>) -> Seq<u8> {
    Seq::new(b.len(), |i: int| b[b.len() - 1 - i])
}

/// The internal bytes of a transaction identifier written as hex: the hex
/// digits decoded to bytes, then reversed, since the display order of an
/// identifier is the reverse of its internal byte order.
pub open spec fn txid_bytes(s: Seq<char>) -> Seq<u8> {
    rev_bytes(hex_bytes(s))
}

/// What [`parse_txid`] returns for a string: the identifier's internal
/// bytes, or the first failure (length is checked before the digits).
pub open spec fn txid_result(s: Seq<char>) -> Result<Seq<u8>, HexError> {
    if s.len() != 64 {
        Err(HexError::InvalidLength)
    } else if !all_hex(s) {
        Err(HexError::InvalidChar)
    } else {
        Ok(txid_bytes(s))
    }
}

/// Relies on `bitcoin::Txid`'s string parsing: exactly 64 hex digits of
/// either case, decoded two to a byte and then byte-reversed into internal
/// order; a wrong byte count is reported before a bad digit.  The error kind
/// is stated only for ASCII input, where byte and character counts agree.
#[verifier::external_body]
fn txid_from_text(s: &str) -> (r: Result<Vec<u8>, HexError>)
    ensures
        r is Ok <==> (s@.len() == 64 && all_hex(s@)),
        r matches Ok(b) ==> b@ == txid_bytes(s@),
        r matches Err(e) ==> (is_ascii_seq(s@) ==> txid_result(s@) == Err::<Seq<u8>, HexError>(e)),
{
    match s.parse::<bitcoin::Txid>() {
        Ok(t) => {
            let a: &[u8; 32] = t.as_ref();
            Ok(a.to_vec())
        },
        Err(bitcoin::hex::HexToArrayError::InvalidChar(_)) => Err(HexError::InvalidChar),
        Err(bitcoin::hex::HexToArrayError::InvalidLength(_)) => Err(HexError::InvalidLength),
    }
}

/// Parses a 64-digit hex string into a transaction identifier.
pub fn parse_txid(s: &str) -> (r: Result<Txid, HexError>)
    ensures
        r is Ok <==> (s@.len() == 64 && all_hex(s@)),
        r matches Ok(t) ==> t.bytes@ == txid_bytes(s@) && t.wf(),
        r matches Err(e) ==> (is_ascii_seq(s@) ==> txid_result(s@) == Err::<Seq<u8>, HexError>(e)),
{
    match txid_from_text(s) {
        Ok(b) => Ok(Txid { bytes: b }),
        Err(e) => Err(e),
    }
}

/// Relies on the `bitcoin` crate's address parsing (`FromStr` for an
/// address that is not yet bound to a network): whether the text is a
/// well-formed address depends on the characters alone.
#[verifier::external_body]
fn address_parseable(s: &str) -> (r: bool)
    ensures
        r == addr_valid(s@),
{
    s.parse::<bitcoin::Address<bitcoin::address::NetworkUnchecked>>().is_ok()
}

/// Parses an address string, keeping it in the "network not yet verified"
/// state: the text is validated as an address but bound to no network.
pub fn parse_address(s: String) -> (r: Result<AddressUnchecked, AddressError>)
    ensures
        r is Ok <==> addr_valid(s@),
        r matches Ok(a) ==> a.text@ == s@ && a.wf(),
        r matches Err(e) ==> e == AddressError::Invalid,
{
    if address_parseable(s.as_str()) {
        Ok(AddressUnchecked { text: s })
    } else {
        Err(AddressError::Invalid)
    }
}

/// The lowercase hexadecimal digit for a value below sixteen; for values
/// below ten this is also the decimal digit.
pub open spec fn hex_char(n: int) -> char {
    if n == 0 {
        '0'
    } else if n == 1 {
        '1'
    } else if n == 2 {
        '2'
    } else if n == 3 {
        '3'
    } else if n == 4 {
        '4'
    } else if n == 5 {
        '5'
    } else if n == 6 {
        '6'
    } else if n == 7 {
        '7'
    } else if n == 8 {
        '8'
    } else if n == 9 {
        '9'
    } else if n == 10 {
        'a'
    } else if n == 11 {
        'b'
    } else if n == 12 {
        'c'
    } else if n == 13 {
        'd'
    } else if n == 14 {
        'e'
    } else {
        'f'
    }
}

/// The display hex of a transaction identifier's internal bytes: the bytes
/// in reverse order, two lowercase digits each, high digit first.
pub open spec fn txid_hex(b: Seq<u8>) -> Seq<char> {
    Seq::new(
        2 * b.len(),
        |i: int|
            if i % 2 == 0 {
                hex_char(rev_bytes(b)[i / 2] as int / 16)
            } else {
                hex_char(rev_bytes(b)[i / 2] as int % 16)
            },
    )
}

/// Round trip for identifiers: writing a transaction identifier's bytes
/// back to their 64-digit display hex and re-parsing that text yields the
/// same bytes.
pub proof fn lemma_txid_roundtrip(b: Seq<u8>)
    requires
        b.len() == 32,
    ensures
        txid_result(txid_hex(b)) == Ok::<Seq<u8>, HexError>(b),
{
    let s = txid_hex(b);
    assert(s.len() == 64);
    assert forall|i: int| 0 <= i < 64 implies is_hex_digit(#[trigger] s[i]) by {
        let v = rev_bytes(b)[i / 2] as int;
        assert(0 <= v < 256);
        if i % 2 == 0 {
            assert(s[i] == hex_char(v / 16));
            assert(0 <= v / 16 < 16);
        } else {
            assert(s[i] == hex_char(v % 16));
            assert(0 <= v % 16 < 16);
        }
    }
    assert(all_hex(s));
    assert forall|i: int| 0 <= i < 32 implies hex_bytes(s)[i] == rev_bytes(b)[i] by {
        let v = rev_bytes(b)[i] as int;
        let hi = v / 16;
        let lo = v % 16;
        assert(s[2 * i] == hex_char(hi));
        assert(s[2 * i + 1] == hex_char(lo));
        assert(0 <= hi < 16 && 0 <= lo < 16);
        assert(hex_val(hex_char(hi)) == hi);
        assert(hex_val(hex_char(lo)) == lo);
        assert(16 * hi + lo == v);
    }
    assert(hex_bytes(s) =~= rev_bytes(b));
    assert(rev_bytes(rev_bytes(b)) =~= b);
}

/// The decimal digits of a nonnegative integer, most significant first.
pub open spec fn dec_digits(n: int) -> Seq<char>
    decreases n,
{
    if n < 10 {
        seq![hex_char(n)]
    } else {
        dec_digits(n / 10).push(hex_char(n % 10))
    }
}

/// The canonical decimal coin text for a satoshi value: the whole-coin
/// part, a decimal point, and exactly eight fractional digits.
pub open spec fn btc_text(v: int) -> Seq<char> {
    dec_digits(v / 100_000_000) + seq!['.'] + Seq::new(
        8,
        |i: int| hex_char((v % 100_000_000) / pow10(7 - i) % 10),
    )
}

/// Digit sequences: every character is a digit and their value is the
/// number itself.
proof fn lemma_dec_digits_val(n: int)
    requires
        0 <= n,
    ensures
        dec_digits(n).len() >= 1,
        forall|i: int| 0 <= i < dec_digits(n).len() ==> is_digit(#[trigger] dec_digits(n)[i]),
        digits_val_before(dec_digits(n), dec_digits(n).len() as int) == n,
    decreases n,
{
    let d = dec_digits(n);
    if n < 10 {
        assert(d == seq![hex_char(n)]);
        assert(is_digit(d[0]));
        assert(digit_val(d[0]) == n);
        assert(digits_val_before(d, 1) == digits_val_before(d, 0) * 10 + digit_val(d[0]));
    } else {
        let d0 = dec_digits(n / 10);
        lemma_dec_digits_val(n / 10);
        assert(d == d0.push(hex_char(n % 10)));
        let l = d0.len() as int;
        assert forall|i: int| 0 <= i < d.len() implies is_digit(#[trigger] d[i]) by {
            if i < l {
                assert(d[i] == d0[i]);
            } else {
                assert(d[i] == hex_char(n % 10));
            }
        }
        lemma_dvb_agree(d, d0, l);
        assert(digits_val_before(d, l + 1) == digits_val_before(d, l) * 10 + digit_val(d[l]));
        assert(digit_val(hex_char(n % 10)) == n % 10);
        assert((n / 10) * 10 + n % 10 == n);
    }
}

/// Two sequences that agree on a prefix give the same digit value and the
/// same fractional-digit count over that prefix.
proof fn lemma_dvb_agree(s: Seq<char>, t: Seq<char>, i: int)
    requires
        0 <= i <= s.len(),
        i <= t.len(),
        forall|j: int| 0 <= j < i ==> s[j] == t[j],
    ensures
        digits_val_before(s, i) == digits_val_before(t, i),
        frac_digits_before(s, i) == frac_digits_before(t, i),
    decreases i,
{
    if i > 0 {
        lemma_dvb_agree(s, t, i - 1);
        assert(has_dot_before(s, i - 1) == has_dot_before(t, i - 1)) by {
            if has_dot_before(s, i - 1) {
                let j = choose|j: int| 0 <= j < i - 1 && s[j] == '.';
                assert(t[j] == '.');
            }
            if has_dot_before(t, i - 1) {
                let j = choose|j: int| 0 <= j < i - 1 && t[j] == '.';
                assert(s[j] == '.');
            }
        }
    }
}

/// The digit accumulator is never negative.
proof fn lemma_dvb_nonneg(s: Seq<char>, i: int)
    requires
        0 <= i <= s.len(),
    ensures
        digits_val_before(s, i) >= 0,
    decreases i,
{
    if i > 0 {
        lemma_dvb_nonneg(s, i - 1);
        if is_digit(s[i - 1]) {
            assert((s[i - 1] as u32) >= 48);
        }
    }
}

/// The digit accumulator never decreases as the scan advances.
proof fn lemma_dvb_mono(s: Seq<char>, i: int, j: int)
    requires
        0 <= i <= j <= s.len(),
    ensures
        0 <= digits_val_before(s, i) <= digits_val_before(s, j),
    decreases j - i,
{
    lemma_dvb_nonneg(s, i);
    if i < j {
        lemma_dvb_mono(s, i, j - 1);
        lemma_dvb_nonneg(s, j - 1);
        if is_digit(s[j - 1]) {
            assert((s[j - 1] as u32) >= 48);
        }
    }
}

/// A scan over positions that all pass reports nothing.
proof fn lemma_scan_clean(s: Seq<char>, i: int)
    requires
        0 <= i <= s.len(),
        forall|j: int| i <= j < s.len() ==> amount_offence_at(s, j) is None,
    ensures
        amount_scan(s, i) is None,
    decreases s.len() - i,
{
    if i < s.len() {
        lemma_scan_clean(s, i + 1);
    }
}

/// The state of the canonical coin text after the whole part, the dot and
/// `k` fractional digits: the accumulator holds the value seen so far and
/// exactly `k` fractional digits have passed.
proof fn lemma_btc_text_prefix(v: int, k: int)
    requires
        0 <= v,
        0 <= k <= 8,
    ensures
        ({
            let s = btc_text(v);
            let a = dec_digits(v / 100_000_000).len() as int;
            digits_val_before(s, a + 1 + k) == (v / 100_000_000) * pow10(k) + (v % 100_000_000)
                / pow10(8 - k) && frac_digits_before(s, a + 1 + k) == k && has_dot_before(
                s,
                a + 1,
            ) && !has_dot_before(s, a)
        }),
    decreases k,
{
    let q = v / 100_000_000;
    let r = v % 100_000_000;
    let s = btc_text(v);
    let d = dec_digits(q);
    let a = d.len() as int;
    lemma_dec_digits_val(q);
    assert(s.len() == a + 9);
    assert forall|j: int| 0 <= j < a implies s[j] == d[j] && is_digit(#[trigger] s[j]) by {}
    assert(!has_dot_before(s, a));
    assert(s[a] == '.');
    assert(has_dot_before(s, a + 1));
    if k == 0 {
        lemma_dvb_agree(s, d, a);
        assert(digits_val_before(s, a) == q);
        assert(!is_digit('.'));
        assert(digits_val_before(s, a + 1) == q);
        assert(frac_digits_before(s, a + 1) == frac_digits_before(s, a));
        assert forall|j: int| 0 <= j <= a implies !(is_digit(#[trigger] s[j]) && has_dot_before(
            s,
            j,
        )) by {
            if j == a {
                assert(s[a] == '.');
            } else if has_dot_before(s, j) {
                let x = choose|x: int| 0 <= x < j && s[x] == '.';
                assert(is_digit(s[x]));
            }
        }
        lemma_frac_zero(s, a);
        assert(pow10(0) == 1);
        assert(r / pow10(8) == 0) by {
            lemma_pow10_8();
            assert(0 <= r < 100_000_000);
        }
    } else {
        lemma_btc_text_prefix(v, k - 1);
        let i = a + k;
        assert(s[i] == hex_char(r / pow10(8 - k) % 10));
        let dig = r / pow10(8 - k) % 10;
        assert(0 <= dig < 10);
        assert(is_digit(hex_char(dig)) && digit_val(hex_char(dig)) == dig);
        assert(has_dot_before(s, i));
        assert(digits_val_before(s, i + 1) == digits_val_before(s, i) * 10 + dig);
        assert(frac_digits_before(s, i + 1) == frac_digits_before(s, i) + 1);
        lemma_pow10_pos(k - 1);
        lemma_pow10_pos(8 - k);
        assert((r / pow10(9 - k)) * 10 + r / pow10(8 - k) % 10 == r / pow10(8 - k)) by {
            assert(pow10(9 - k) == pow10(8 - k) * 10) by {
                lemma_pow10_step(8 - k);
            }
            lemma_div_twice(r, pow10(8 - k));
        }
        assert(q * pow10(k - 1) * 10 == q * pow10(k)) by {
            lemma_pow10_step(k - 1);
            assert(pow10(k) == 10 * pow10(k - 1));
            assert(q * (pow10(k - 1) * 10) == (q * pow10(k - 1)) * 10) by (nonlinear_arith);
            assert(q * pow10(k) == q * (pow10(k - 1) * 10)) by (nonlinear_arith)
                requires
                    pow10(k) == 10 * pow10(k - 1),
            ;
        }
    }
}

/// No digit stands after the dot when the dot closes the sequence prefix.
proof fn lemma_frac_zero(s: Seq<char>, a: int)
    requires
        0 <= a < s.len(),
        forall|j: int| 0 <= j <= a ==> !(is_digit(#[trigger] s[j]) && has_dot_before(s, j)),
    ensures
        frac_digits_before(s, a + 1) == frac_digits_before(s, a),
        frac_digits_before(s, a) == 0,
    decreases a,
{
    if a > 0 {
        lemma_frac_zero(s, a - 1);
        assert(frac_digits_before(s, a) == frac_digits_before(s, a - 1));
    }
    if is_digit(s[a]) {
        assert(frac_digits_before(s, a + 1) == frac_digits_before(s, a) + if has_dot_before(
            s,
            a,
        ) {
            1int
        } else {
            0int
        });
    }
}

/// Ten to the eighth, spelled out.
proof fn lemma_pow10_8()
    ensures
        pow10(8) == 100_000_000,
{
    reveal_with_fuel(pow10, 9);
}

/// Powers of ten are positive.
proof fn lemma_pow10_pos(n: int)
    ensures
        pow10(n) >= 1,
    decreases n,
{
    if n > 0 {
        lemma_pow10_pos(n - 1);
    }
}

/// One more power of ten.
proof fn lemma_pow10_step(n: int)
    requires
        0 <= n,
    ensures
        pow10(n + 1) == 10 * pow10(n),
{
}

/// Dividing by a divisor and then by ten divides by ten times the divisor.
proof fn lemma_div_twice(r: int, p: int)
    requires
        0 <= r,
        1 <= p,
    ensures
        (r / p) * 10 % 10 == 0,
        r / (p * 10) == (r / p) / 10,
        (r / (p * 10)) * 10 + r / p % 10 == r / p,
{
    vstd::arithmetic::div_mod::lemma_div_denominator(r, p, 10);
    assert((r / p) / 10 * 10 + (r / p) % 10 == r / p) by {
        vstd::arithmetic::div_mod::lemma_fundamental_div_mod(r / p, 10);
    }
}

/// Round trip for amounts: writing a satoshi value back to its canonical
/// decimal coin text and re-parsing that text yields the same value.
pub proof fn lemma_amount_roundtrip(v: int)
    requires
        0 <= v <= MAX_MONEY_SATS as int,
    ensures
        amount_result(btc_text(v)) == Ok::<int, AmountError>(v),
{
    let q = v / 100_000_000;
    let r = v % 100_000_000;
    let s = btc_text(v);
    let d = dec_digits(q);
    let a = d.len() as int;
    lemma_dec_digits_val(q);
    lemma_pow10_8();
    assert(d.len() <= 8) by {
        lemma_dec_digits_len(q, 8);
    }
    assert(s.len() == a + 9);
    assert(1 <= s.len() <= 50);
    lemma_btc_text_prefix(v, 8);
    assert(digits_val_before(s, s.len() as int) == q * pow10(8) + r / pow10(0));
    assert(q * pow10(8) + r == v) by {
        vstd::arithmetic::div_mod::lemma_fundamental_div_mod(v, 100_000_000);
        assert(q * 100_000_000 == q * pow10(8)) by (nonlinear_arith)
            requires
                pow10(8) == 100_000_000,
        ;
    }
    assert(frac_digits_before(s, s.len() as int) == 8);
    assert(sats_of(s) == v * pow10(0));
    assert(sats_of(s) == v);
    assert forall|j: int| 0 <= j < s.len() implies amount_offence_at(s, j) is None by {
        lemma_amount_text_offence_free(v, j);
    }
    lemma_scan_clean(s, 0);
    lemma_amount_result(s);
}

/// The digits of an integer below ten to the `k` are at most `k` digits.
proof fn lemma_dec_digits_len(n: int, k: int)
    requires
        0 <= n < pow10(k),
        1 <= k,
    ensures
        dec_digits(n).len() <= k,
    decreases k,
{
    if n >= 10 {
        assert(k >= 2) by {
            if k == 1 {
                reveal_with_fuel(pow10, 2);
            }
        }
        assert(n / 10 < pow10(k - 1)) by {
            lemma_pow10_step(k - 1);
            vstd::arithmetic::div_mod::lemma_div_is_ordered(n, pow10(k) - 1, 10);
            assert((10 * pow10(k - 1) - 1) / 10 == pow10(k - 1) - 1) by {
                vstd::arithmetic::div_mod::lemma_fundamental_div_mod_converse(
                    10 * pow10(k - 1) - 1,
                    10,
                    pow10(k - 1) - 1,
                    9,
                );
            }
            lemma_pow10_pos(k - 1);
        }
        lemma_dec_digits_len(n / 10, k - 1);
    }
}

/// No position of the canonical coin text offends the scan.
proof fn lemma_amount_text_offence_free(v: int, j: int)
    requires
        0 <= v <= MAX_MONEY_SATS as int,
        0 <= j < btc_text(v).len(),
    ensures
        amount_offence_at(btc_text(v), j) is None,
{
    let q = v / 100_000_000;
    let r = v % 100_000_000;
    let s = btc_text(v);
    let d = dec_digits(q);
    let a = d.len() as int;
    lemma_dec_digits_val(q);
    lemma_pow10_8();
    assert(s.len() == a + 9);
    lemma_btc_text_prefix(v, 8);
    if j < a {
        assert(s[j] == d[j] && is_digit(s[j]));
        assert(!has_dot_before(s, j)) by {
            if has_dot_before(s, j) {
                let x = choose|x: int| 0 <= x < j && s[x] == '.';
                assert(is_digit(d[x]));
            }
        }
        assert(digits_val_before(s, j + 1) <= digits_val_before(s, s.len() as int)) by {
            lemma_dvb_mono(s, j + 1, s.len() as int);
        }
        assert(digits_val_before(s, s.len() as int) == q * pow10(8) + r / pow10(0)) by {
            lemma_btc_text_prefix(v, 8);
        }
        assert(q * pow10(8) + r == v) by {
            vstd::arithmetic::div_mod::lemma_fundamental_div_mod(v, 100_000_000);
            assert(q * 100_000_000 == q * pow10(8)) by (nonlinear_arith)
                requires
                    pow10(8) == 100_000_000,
            ;
        }
        assert(digits_val_before(s, j + 1) <= v);
    } else if j == a {
        assert(s[a] == '.');
        assert(!has_dot_before(s, a));
    } else {
        let k = j - a;  // the k-th fractional digit, 1 <= k <= 8
        assert(1 <= k <= 8);
        lemma_btc_text_prefix(v, k);
        lemma_btc_text_prefix(v, k - 1);
        assert(is_digit(s[j]));
        assert(frac_digits_before(s, j) == k - 1);
        assert(k - 1 < 8);
        assert(digits_val_before(s, j + 1) <= digits_val_before(s, s.len() as int)) by {
            lemma_dvb_mono(s, j + 1, s.len() as int);
        }
        assert(digits_val_before(s, s.len() as int) == q * pow10(8) + r / pow10(0));
        assert(q * pow10(8) + r == v) by {
            vstd::arithmetic::div_mod::lemma_fundamental_div_mod(v, 100_000_000);
            assert(q * 100_000_000 == q * pow10(8)) by (nonlinear_arith)
                requires
                    pow10(8) == 100_000_000,
            ;
        }
        assert(digits_val_before(s, j + 1) <= v);
    }
}

} // verus!

