//! Base64 decoding (standard alphabet, no padding expected in the symbol
//! stream) into a buffer of known capacity, with positional error context.

use vstd::prelude::*;
use vstd::slice::slice_subrange;

use crate::error::DecodeError;
use crate::error::PaddingIssue;
use crate::hex_codec::res_matches;
use crate::sizes::base64_unpadded_size;
use crate::sizes::spec_base64_unpadded_size;

verus! {

/// The pad byte `=`.
pub open spec fn pad_byte() -> u8 {
    61
}

/// A byte of the standard base64 alphabet.
pub open spec fn is_b64_symbol(b: u8) -> bool {
    (65 <= b && b <= 90) || (97 <= b && b <= 122) || (48 <= b && b <= 57) || b == 43 || b == 47
}

/// Six-bit value of a symbol; 64 for anything outside the alphabet.
pub open spec fn b64_value(b: u8) -> u8 {
    if 65 <= b && b <= 90 {
        (b - 65) as u8
    } else if 97 <= b && b <= 122 {
        (b - 71) as u8
    } else if 48 <= b && b <= 57 {
        (b + 4) as u8
    } else if b == 43 {
        62u8
    } else if b == 47 {
        63u8
    } else {
        64u8
    }
}

/// The symbol whose six-bit value is `v` (`v < 64`).
pub open spec fn b64_digit(v: u8) -> u8 {
    if v < 26 {
        (65 + v) as u8
    } else if v < 52 {
        (97 + (v - 26)) as u8
    } else if v < 62 {
        (48 + (v - 52)) as u8
    } else if v == 62 {
        43u8
    } else {
        47u8
    }
}

pub open spec fn b64_byte0(a: u8, b: u8) -> u8 {
    (b64_value(a) << 2 | b64_value(b) >> 4) as u8
}

pub open spec fn b64_byte1(b: u8, c: u8) -> u8 {
    ((b64_value(b) & 15) << 4 | b64_value(c) >> 2) as u8
}

pub open spec fn b64_byte2(c: u8, d: u8) -> u8 {
    ((b64_value(c) & 3) << 6 | b64_value(d)) as u8
}

/// Bytes read off a stream of base64 symbols: four symbols give three bytes;
/// a final pair or triple gives one or two.
pub open spec fn spec_b64_decode(s: Seq<u8>) -> Seq<u8>
    decreases s.len(),
{
    if s.len() >= 4 {
        seq![b64_byte0(s[0], s[1]), b64_byte1(s[1], s[2]), b64_byte2(s[2], s[3])]
            + spec_b64_decode(s.skip(4))
    } else if s.len() == 3 {
        seq![b64_byte0(s[0], s[1]), b64_byte1(s[1], s[2])]
    } else if s.len() == 2 {
        seq![b64_byte0(s[0], s[1])]
    } else {
        Seq::empty()
    }
}

/// The unpadded base64 encoding of a byte sequence.
pub open spec fn spec_b64_encode(b: Seq<u8>) -> Seq<u8>
    decreases b.len(),
{
    if b.len() >= 3 {
        seq![
            b64_digit(b[0] >> 2),
            b64_digit(((b[0] & 3) << 4 | b[1] >> 4) as u8),
            b64_digit(((b[1] & 15) << 2 | b[2] >> 6) as u8),
            b64_digit(b[2] & 63),
        ] + spec_b64_encode(b.skip(3))
    } else if b.len() == 2 {
        seq![
            b64_digit(b[0] >> 2),
            b64_digit(((b[0] & 3) << 4 | b[1] >> 4) as u8),
            b64_digit(((b[1] & 15) << 2) as u8),
        ]
    } else if b.len() == 1 {
        seq![b64_digit(b[0] >> 2), b64_digit(((b[0] & 3) << 4) as u8)]
    } else {
        Seq::empty()
    }
}

/// The padded base64 encoding: the unpadded one filled with `=` to a multiple
/// of four.
pub open spec fn spec_b64_encode_padded(b: Seq<u8>) -> Seq<u8> {
    if b.len() % 3 == 1 {
        spec_b64_encode(b) + seq![pad_byte(), pad_byte()]
    } else if b.len() % 3 == 2 {
        spec_b64_encode(b) + seq![pad_byte()]
    } else {
        spec_b64_encode(b)
    }
}

/// Index of the first byte outside the alphabet; `s.len()` if none.
pub open spec fn first_non_symbol(s: Seq<u8>) -> int
    decreases s.len(),
{
    if s.len() == 0 {
        0
    } else if !is_b64_symbol(s[0]) {
        0
    } else {
        1 + first_non_symbol(s.skip(1))
    }
}

pub proof fn lemma_first_non_symbol(s: Seq<u8>)
    ensures
        0 <= first_non_symbol(s) <= s.len(),
        forall|j: int| 0 <= j < first_non_symbol(s) ==> is_b64_symbol(s[j]),
        first_non_symbol(s) < s.len() ==> !is_b64_symbol(s[first_non_symbol(s)]),
    decreases s.len(),
{
    if s.len() > 0 && is_b64_symbol(s[0]) {
        lemma_first_non_symbol(s.skip(1));
        assert forall|j: int| 0 <= j < first_non_symbol(s) implies is_b64_symbol(s[j]) by {
            if j >= 1 {
                assert(is_b64_symbol(s.skip(1)[j - 1]));
            }
        }
    }
}

/// A stream of symbols only has no first non-symbol short of its length.
pub proof fn lemma_all_symbols_first(s: Seq<u8>)
    requires
        forall|j: int| 0 <= j < s.len() ==> is_b64_symbol(s[j]),
    ensures
        first_non_symbol(s) == s.len(),
{
    lemma_first_non_symbol(s);
}

pub proof fn lemma_b64_digit_value(v: u8)
    requires
        v < 64,
    ensures
        is_b64_symbol(b64_digit(v)),
        b64_value(b64_digit(v)) == v,
        b64_digit(v) != 61,
{
}

/// The final symbol encodes no bits beyond the decoded bytes.
pub open spec fn b64_trailing_ok(s: Seq<u8>) -> bool {
    if s.len() % 4 == 2 {
        b64_value(s.last()) & 15 == 0
    } else if s.len() % 4 == 3 {
        b64_value(s.last()) & 3 == 0
    } else {
        true
    }
}

/// Length of the symbol stream before its last, possibly partial, group of
/// four, which is where stray padding is tolerated structurally.
pub open spec fn nonterminal_quads_len(len: int) -> int {
    if len % 4 == 0 {
        if len >= 4 {
            len - 4
        } else {
            0
        }
    } else {
        len - (len % 4)
    }
}

/// Mirror of the failures that decoding a base64 symbol stream can produce.
pub enum Base64Issue {
    /// Index of a byte outside the alphabet (a pad byte in an illegal place
    /// is reported the same way), and that byte.
    InvalidByte(usize, u8),
    /// The symbol stream's length leaves a single trailing symbol.
    InvalidLength(usize),
    /// Index of a final symbol whose trailing bits are nonzero, and that byte.
    InvalidLastSymbol(usize, u8),
    /// Pad bytes closed the stream where none were allowed.
    InvalidPadding,
}

/// What decoding a symbol stream `s` with `s.len() % 4 != 1` yields.
///
/// Bytes outside the alphabet are reported left to right. A pad byte is an
/// invalid byte, except as one of the last two positions of the final group
/// where, followed only by pad bytes, the whole stream is instead rejected as
/// padded. A valid stream with nonzero trailing bits is rejected at its last
/// symbol.
pub open spec fn spec_b64_result(s: Seq<u8>) -> Result<Seq<u8>, Base64Issue>
    recommends
        s.len() % 4 != 1,
{
    let f = first_non_symbol(s);
    let nq = nonterminal_quads_len(s.len() as int);
    if f == s.len() {
        if !b64_trailing_ok(s) {
            Err(Base64Issue::InvalidLastSymbol((s.len() - 1) as usize, s.last()))
        } else {
            Ok(spec_b64_decode(s))
        }
    } else if f < nq || s[f] != pad_byte() {
        Err(Base64Issue::InvalidByte(f as usize, s[f]))
    } else if f - nq < 2 {
        Err(Base64Issue::InvalidByte(f as usize, pad_byte()))
    } else if exists|j: int| f < j < s.len() && s[j] != pad_byte() {
        Err(Base64Issue::InvalidByte(f as usize, pad_byte()))
    } else {
        Err(Base64Issue::InvalidPadding)
    }
}

/// The unpadded base64 encoding of `b` has the unpadded base64 length,
/// consists of alphabet symbols only, carries no nonzero trailing bits, and
/// decodes back to `b`.
pub proof fn lemma_b64_encode_props(b: Seq<u8>)
    ensures
        spec_b64_encode(b).len() == spec_base64_unpadded_size(b.len()),
        forall|j: int|
            0 <= j < spec_b64_encode(b).len() ==> is_b64_symbol(#[trigger] spec_b64_encode(b)[j]),
        b64_trailing_ok(spec_b64_encode(b)),
        spec_b64_decode(spec_b64_encode(b)) == b,
    decreases b.len(),
{
    let e = spec_b64_encode(b);
    if b.len() == 0 {
        assert(spec_b64_decode(e) =~= b);
    } else if b.len() == 1 {
        let x = b[0];
        assert(x >> 2 < 64 && ((x & 3) << 4) < 64) by (bit_vector);
        lemma_b64_digit_value(x >> 2);
        lemma_b64_digit_value((x & 3) << 4);
        assert(((x >> 2) << 2 | ((x & 3) << 4) >> 4) == x) by (bit_vector);
        assert(((x & 3) << 4) & 15 == 0) by (bit_vector);
        assert(spec_b64_decode(e) =~= b);
    } else if b.len() == 2 {
        let x = b[0];
        let y = b[1];
        assert(x >> 2 < 64 && ((x & 3) << 4 | y >> 4) < 64 && ((y & 15) << 2) < 64)
            by (bit_vector);
        lemma_b64_digit_value(x >> 2);
        lemma_b64_digit_value((x & 3) << 4 | y >> 4);
        lemma_b64_digit_value((y & 15) << 2);
        assert(((x >> 2) << 2 | ((x & 3) << 4 | y >> 4) >> 4) == x) by (bit_vector);
        assert(((((x & 3) << 4 | y >> 4) & 15) << 4 | ((y & 15) << 2) >> 2) == y) by (bit_vector);
        assert(((y & 15) << 2) & 3 == 0) by (bit_vector);
        assert(spec_b64_decode(e) =~= b);
    } else {
        lemma_b64_encode_props(b.skip(3));
        let x = b[0];
        let y = b[1];
        let z = b[2];
        assert(x >> 2 < 64 && ((x & 3) << 4 | y >> 4) < 64 && ((y & 15) << 2 | z >> 6) < 64 && (z
            & 63) < 64) by (bit_vector);
        lemma_b64_digit_value(x >> 2);
        lemma_b64_digit_value((x & 3) << 4 | y >> 4);
        lemma_b64_digit_value((y & 15) << 2 | z >> 6);
        lemma_b64_digit_value(z & 63);
        let rest = spec_b64_encode(b.skip(3));
        let quad = seq![
            b64_digit(x >> 2),
            b64_digit((x & 3) << 4 | y >> 4),
            b64_digit((y & 15) << 2 | z >> 6),
            b64_digit(z & 63),
        ];
        assert(e == quad + rest);
        // the unpadded length grows by four for each leading group of three
        let m = b.len() as int;
        assert((4 * m + 2) / 3 == (4 * (m - 3) + 2) / 3 + 4) by (nonlinear_arith)
            requires
                m >= 3,
        ;
        assert(e.len() == spec_base64_unpadded_size(b.len()));
        assert forall|j: int| 0 <= j < e.len() implies is_b64_symbol(e[j]) by {
            if j >= 4 {
                assert(e[j] == rest[j - 4]);
            }
        }
        // trailing bits live in the last, possibly partial, group, which the
        // recursive call covers; a lone final quad carries none
        if b.len() == 3 {
            assert(e.len() % 4 == 0);
        } else {
            assert(rest.len() > 0);
            assert(e.last() == rest.last());
            assert(e.len() % 4 == rest.len() % 4);
        }
        assert(((x >> 2) << 2 | ((x & 3) << 4 | y >> 4) >> 4) == x) by (bit_vector);
        assert(((((x & 3) << 4 | y >> 4) & 15) << 4 | (((y & 15) << 2 | z >> 6)) >> 2) == y)
            by (bit_vector);
        assert(((((y & 15) << 2 | z >> 6) & 3) << 6 | (z & 63)) == z) by (bit_vector);
        assert(e.skip(4) =~= rest);
        assert(spec_b64_decode(e) =~= seq![x, y, z] + spec_b64_decode(rest));
        assert(spec_b64_decode(e) =~= b);
    }
}

/// Relies on base64's BASE64_STANDARD_NO_PAD engine decode: bytes outside
/// the alphabet are reported with their index (stray padding as above); a
/// stream whose length leaves a single trailing symbol is an invalid length;
/// nonzero trailing bits in the final symbol are reported against it;
/// otherwise each group of symbols decodes to its bytes, six bits per
/// symbol, exactly as `spec_b64_result` states.
#[verifier::external_body]
fn b64_decode_raw(s: &[u8]) -> (r: Result<Vec<u8>, Base64Issue>)
    ensures
        s@.len() % 4 != 1 ==> match spec_b64_result(s@) {
            Ok(b) => r matches Ok(out) && out@ == b,
            Err(e) => r matches Err(e2) && e2 == e,
        },
        s@.len() % 4 == 1 ==> r is Err,
{
    match base64::Engine::decode(&base64::prelude::BASE64_STANDARD_NO_PAD, s) {
        Ok(b) => Ok(b),
        Err(base64::DecodeError::InvalidByte(i, b)) => Err(Base64Issue::InvalidByte(i, b)),
        Err(base64::DecodeError::InvalidLength(l)) => Err(Base64Issue::InvalidLength(l)),
        Err(base64::DecodeError::InvalidLastSymbol(i, b)) => Err(
            Base64Issue::InvalidLastSymbol(i, b),
        ),
        Err(base64::DecodeError::InvalidPadding) => Err(Base64Issue::InvalidPadding),
    }
}

pub proof fn lemma_spec_b64_decode_len(s: Seq<u8>)
    ensures
        spec_b64_decode(s).len() == 3 * (s.len() as int / 4) + (
        if s.len() % 4 == 2 {
            1int
        } else if s.len() % 4 == 3 {
            2int
        } else {
            0int
        }),
    decreases s.len(),
{
    if s.len() >= 4 {
        lemma_spec_b64_decode_len(s.skip(4));
        let m = s.len() as int;
        assert((m - 4) / 4 == m / 4 - 1 && (m - 4) % 4 == m % 4) by (nonlinear_arith)
            requires
                m >= 4,
        ;
    }
}

/// What the base64 decoder owes for a target length `n`, given a text that is
/// long enough: the leading symbol stream (padding already stripped) decodes
/// into exactly `n` bytes; a stream that decodes to any other count is a
/// length error citing the whole text's length.
pub open spec fn spec_decode_base64(v: Seq<u8>, n: nat) -> Result<Seq<u8>, DecodeError>
    recommends
        v.len() >= spec_base64_unpadded_size(n),
{
    let s = v.take(spec_base64_unpadded_size(n) as int);
    match spec_b64_result(s) {
        Ok(b) => if b.len() == n {
            Ok(b)
        } else {
            Err(DecodeError::Length(v.len() as usize))
        },
        Err(Base64Issue::InvalidByte(i, b)) => Err(DecodeError::InvalidByte(b, i)),
        Err(Base64Issue::InvalidLength(_)) => Err(DecodeError::Length(v.len() as usize)),
        Err(Base64Issue::InvalidLastSymbol(i, b)) => Err(DecodeError::InvalidLastSymbol(b, i)),
        Err(Base64Issue::InvalidPadding) => Err(
            DecodeError::InvalidPadding(PaddingIssue::InStream),
        ),
    }
}

/// The unpadded base64 length of `n` bytes leaves no single trailing symbol,
/// and a symbol stream of that length decodes to exactly `n` bytes.
pub proof fn lemma_unpadded_len_props(n: nat)
    ensures
        spec_base64_unpadded_size(n) % 4 != 1,
        3 * (spec_base64_unpadded_size(n) as int / 4) + (
        if spec_base64_unpadded_size(n) % 4 == 2 {
            1int
        } else if spec_base64_unpadded_size(n) % 4 == 3 {
            2int
        } else {
            0int
        }) == n,
{
    let k = n as int / 3;
    let r = n as int % 3;
    vstd::arithmetic::div_mod::lemma_fundamental_div_mod(n as int, 3);
    vstd::arithmetic::div_mod::lemma_mod_bound(n as int, 3);
    assert(n == 3 * k + r && 0 <= r < 3);
    assert(spec_base64_unpadded_size(n) == 4 * k + (
    if r == 0 {
        0int
    } else if r == 1 {
        2int
    } else {
        3int
    })) by (nonlinear_arith)
        requires
            n == 3 * k + r && 0 <= r < 3,
    ;
    let u = spec_base64_unpadded_size(n) as int;
    assert(u % 4 == (if r == 0 {
        0int
    } else if r == 1 {
        2int
    } else {
        3int
    }) && u / 4 == k) by (nonlinear_arith)
        requires
            u == 4 * k + (if r == 0 {
                0int
            } else if r == 1 {
                2int
            } else {
                3int
            }) && 0 <= r < 3 && k >= 0,
    ;
}

/// Decodes the leading `base64_unpadded_size(n)` symbols of `v` into `n`
/// bytes.
pub fn decode_base64(v: &[u8], n: usize) -> (r: Result<Vec<u8>, DecodeError>)
    requires
        n <= usize::MAX / 4,
        v@.len() >= spec_base64_unpadded_size(n as nat),
    ensures
        res_matches(r, spec_decode_base64(v@, n as nat)),
{
    proof {
        lemma_unpadded_len_props(n as nat);
        let mx = usize::MAX as int;
        assert(n * 4 <= mx) by (nonlinear_arith)
            requires
                n <= mx / 4 && n >= 0,
        ;
    }
    let symbols_len = base64_unpadded_size(n);
    let symbols = slice_subrange(v, 0, symbols_len);
    proof {
        assert(symbols@ =~= v@.take(spec_base64_unpadded_size(n as nat) as int));
        lemma_spec_b64_decode_len(symbols@);
    }
    match b64_decode_raw(symbols) {
        Ok(b) => {
            if b.len() != n {
                Err(DecodeError::Length(v.len()))
            } else {
                Ok(b)
            }
        },
        Err(Base64Issue::InvalidByte(i, b)) => Err(DecodeError::InvalidByte(b, i)),
        Err(Base64Issue::InvalidLength(_)) => Err(DecodeError::Length(v.len())),
        Err(Base64Issue::InvalidLastSymbol(i, b)) => Err(DecodeError::InvalidLastSymbol(b, i)),
        Err(Base64Issue::InvalidPadding) => Err(
            DecodeError::InvalidPadding(PaddingIssue::InStream),
        ),
    }
}

} // verus!
