//! Hexadecimal decoding of a text of known even length into bytes, with the
//! offending character and index on failure.

use vstd::prelude::*;

use crate::error::DecodeError;

verus! {

/// An ASCII hex digit, either case.
pub open spec fn is_hex_digit(b: u8) -> bool {
    (48 <= b && b <= 57) || (97 <= b && b <= 102) || (65 <= b && b <= 70)
}

/// Value of a hex digit; 0 for anything else.
pub open spec fn hex_digit_value(b: u8) -> u8 {
    if 48 <= b && b <= 57 {
        (b - 48) as u8
    } else if 97 <= b && b <= 102 {
        (b - 87) as u8
    } else if 65 <= b && b <= 70 {
        (b - 55) as u8
    } else {
        0
    }
}

/// The lowercase hex digit with value `v` (`v < 16`).
pub open spec fn hex_digit_of(v: u8) -> u8 {
    if v < 10 {
        (48 + v) as u8
    } else {
        (87 + v) as u8
    }
}

/// Bytes read off a hex digit string, two digits per byte, high digit first.
pub open spec fn spec_hex_decode(s: Seq<u8>) -> Seq<u8>
    decreases s.len(),
{
    if s.len() < 2 {
        Seq::empty()
    } else {
        seq![(hex_digit_value(s[0]) * 16 + hex_digit_value(s[1])) as u8] + spec_hex_decode(
            s.skip(2),
        )
    }
}

/// The lowercase hex encoding of a byte sequence.
pub open spec fn spec_hex_encode(b: Seq<u8>) -> Seq<u8>
    decreases b.len(),
{
    if b.len() == 0 {
        Seq::empty()
    } else {
        seq![hex_digit_of(b[0] / 16), hex_digit_of((b[0] % 16) as u8)] + spec_hex_encode(b.skip(1))
    }
}

/// Index of the first byte that is not a hex digit; `s.len()` if all are.
pub open spec fn first_non_hex(s: Seq<u8>) -> int
    decreases s.len(),
{
    if s.len() == 0 {
        0
    } else if !is_hex_digit(s[0]) {
        0
    } else {
        1 + first_non_hex(s.skip(1))
    }
}

pub proof fn lemma_first_non_hex(s: Seq<u8>)
    ensures
        0 <= first_non_hex(s) <= s.len(),
        forall|j: int| 0 <= j < first_non_hex(s) ==> is_hex_digit(s[j]),
        first_non_hex(s) < s.len() ==> !is_hex_digit(s[first_non_hex(s)]),
    decreases s.len(),
{
    if s.len() > 0 && is_hex_digit(s[0]) {
        lemma_first_non_hex(s.skip(1));
        assert forall|j: int| 0 <= j < first_non_hex(s) implies is_hex_digit(s[j]) by {
            if j >= 1 {
                assert(is_hex_digit(s.skip(1)[j - 1]));
            }
        }
    }
}

pub proof fn lemma_spec_hex_decode_len(s: Seq<u8>)
    ensures
        spec_hex_decode(s).len() == s.len() / 2,
    decreases s.len(),
{
    if s.len() >= 2 {
        lemma_spec_hex_decode_len(s.skip(2));
    }
}

pub proof fn lemma_hex_digit_of_value(v: u8)
    requires
        v < 16,
    ensures
        is_hex_digit(hex_digit_of(v)),
        hex_digit_value(hex_digit_of(v)) == v,
        hex_digit_of(v) != 61,
{
}

/// The hex encoding of `b` is twice as long, consists of hex digits only
/// (never of a pad byte), and decodes back to `b`.
pub proof fn lemma_hex_encode_props(b: Seq<u8>)
    ensures
        spec_hex_encode(b).len() == 2 * b.len(),
        forall|j: int|
            0 <= j < spec_hex_encode(b).len() ==> is_hex_digit(#[trigger] spec_hex_encode(b)[j])
                && spec_hex_encode(b)[j] != 61,
        spec_hex_decode(spec_hex_encode(b)) == b,
    decreases b.len(),
{
    if b.len() == 0 {
        assert(spec_hex_decode(spec_hex_encode(b)) =~= b);
    } else {
        lemma_hex_encode_props(b.skip(1));
        let x = b[0];
        let hi = (x / 16) as u8;
        let lo = (x % 16) as u8;
        lemma_hex_digit_of_value(hi);
        lemma_hex_digit_of_value(lo);
        let e = spec_hex_encode(b);
        let pair = seq![hex_digit_of(hi), hex_digit_of(lo)];
        assert(e == pair + spec_hex_encode(b.skip(1)));
        assert forall|j: int| 0 <= j < e.len() implies is_hex_digit(e[j]) && e[j] != 61 by {
            if j >= 2 {
                assert(e[j] == spec_hex_encode(b.skip(1))[j - 2]);
            }
        }
        assert(e.skip(2) =~= spec_hex_encode(b.skip(1)));
        assert(hex_digit_value(e[0]) * 16 + hex_digit_value(e[1]) == x);
        assert(spec_hex_decode(e) =~= seq![x] + spec_hex_decode(e.skip(2)));
        assert(spec_hex_decode(e) =~= b);
    }
}

/// A text of hex digits only has no first non-digit short of its length.
pub proof fn lemma_all_hex_first(s: Seq<u8>)
    requires
        forall|j: int| 0 <= j < s.len() ==> is_hex_digit(s[j]),
    ensures
        first_non_hex(s) == s.len(),
{
    lemma_first_non_hex(s);
}

/// Mirror of the failures that decoding a hex text can produce.
pub enum HexIssue {
    OddLength,
    InvalidChar(char, usize),
}

/// What decoding a hex text yields: the length parity is checked first, then
/// the digits are scanned left to right.
pub open spec fn spec_hex_result(s: Seq<u8>) -> Result<Seq<u8>, HexIssue> {
    if s.len() % 2 != 0 {
        Err(HexIssue::OddLength)
    } else if first_non_hex(s) < s.len() {
        Err(
            HexIssue::InvalidChar(
                s[first_non_hex(s)] as char,
                first_non_hex(s) as usize,
            ),
        )
    } else {
        Ok(spec_hex_decode(s))
    }
}

/// Relies on hex::decode: rejects odd lengths, then scans left to right and
/// reports the first non-hex-digit byte, as a char, with its index; on success
/// each output byte is the value of two digits, high digit first.
#[verifier::external_body]
fn hex_decode_raw(v: &[u8]) -> (r: Result<Vec<u8>, HexIssue>)
    ensures
        match spec_hex_result(v@) {
            Ok(b) => r matches Ok(out) && out@ == b,
            Err(e) => r matches Err(e2) && e2 == e,
        },
{
    match hex::decode(v) {
        Ok(b) => Ok(b),
        Err(hex::FromHexError::OddLength) => Err(HexIssue::OddLength),
        Err(hex::FromHexError::InvalidHexCharacter { c, index }) => Err(
            HexIssue::InvalidChar(c, index),
        ),
        // not produced by hex::decode, which takes no expected output length
        Err(hex::FromHexError::InvalidStringLength) => Err(HexIssue::OddLength),
    }
}

/// What the hex decoder owes for a target length `n`: a text of any other
/// length is a length error, then the first non-digit is reported, else the
/// bytes are read off pairwise.
pub open spec fn spec_decode_hex(v: Seq<u8>, n: nat) -> Result<Seq<u8>, DecodeError> {
    if v.len() != 2 * n {
        Err(DecodeError::Length(v.len() as usize))
    } else if first_non_hex(v) < v.len() {
        Err(
            DecodeError::InvalidCharacter(
                v[first_non_hex(v)] as char,
                first_non_hex(v) as usize,
            ),
        )
    } else {
        Ok(spec_hex_decode(v))
    }
}

/// Results agree: same success bytes or same error.
pub open spec fn res_matches(
    r: Result<Vec<u8>, DecodeError>,
    s: Result<Seq<u8>, DecodeError>,
) -> bool {
    match (r, s) {
        (Ok(rv), Ok(sv)) => rv@ == sv,
        (Err(re), Err(se)) => re == se,
        _ => false,
    }
}

/// Decodes a hex text of length `2 * n` into `n` bytes.
pub fn decode_hex(v: &[u8], n: usize) -> (r: Result<Vec<u8>, DecodeError>)
    requires
        n <= usize::MAX / 2,
    ensures
        res_matches(r, spec_decode_hex(v@, n as nat)),
{
    if v.len() != n * 2 {
        return Err(DecodeError::Length(v.len()));
    }
    proof {
        lemma_first_non_hex(v@);
    }
    match hex_decode_raw(v) {
        Ok(b) => Ok(b),
        Err(HexIssue::OddLength) => Err(DecodeError::Length(v.len())),
        Err(HexIssue::InvalidChar(c, i)) => Err(DecodeError::InvalidCharacter(c, i)),
    }
}

} // verus!
