//! The laws the decoder obeys, stated across its functions and proved from
//! their contracts: round trips for every encoding the classifier accepts,
//! the length-error guarantee, the zero-length target, the placement of hex
//! character errors, and idempotence of re-decoding re-encoded output.

use vstd::prelude::*;

use crate::base64_codec::lemma_all_symbols_first;
use crate::base64_codec::lemma_b64_encode_props;
use crate::base64_codec::pad_byte;
use crate::base64_codec::spec_b64_encode;
use crate::base64_codec::spec_b64_encode_padded;
use crate::classify::padding_window_ok;
use crate::classify::spec_decode_text;
use crate::error::DecodeError;
use crate::hex_codec::is_hex_digit;
use crate::hex_codec::lemma_all_hex_first;
use crate::hex_codec::lemma_first_non_hex;
use crate::hex_codec::lemma_hex_encode_props;
use crate::hex_codec::lemma_spec_hex_decode_len;
use crate::hex_codec::spec_hex_encode;
use crate::shapes::spec_decode_bytes;
use crate::shapes::spec_decode_seq;
use crate::sizes::lemma_hex_padded_coincide;
use crate::sizes::lemma_size_relations;
use crate::sizes::spec_base64_padded_size;
use crate::sizes::spec_base64_unpadded_size;
use crate::sizes::spec_hex_size;

verus! {

/// Round trip: for every byte array `b`, decoding the hex encoding of `b`
/// against the target length `b.len()` gives back exactly `b`.
pub proof fn lemma_round_trip_hex(b: Seq<u8>, n: nat)
    requires
        n == b.len(),
        n <= usize::MAX as nat / 4,
    ensures
        spec_decode_text(spec_hex_encode(b), n) == Ok::<Seq<u8>, DecodeError>(b),
{
    lemma_hex_encode_props(b);
    lemma_size_relations(n);
    lemma_hex_padded_coincide(n);
    let v = spec_hex_encode(b);
    lemma_all_hex_first(v);
    if n == 0 {
        assert(v.len() == 0);
        assert(spec_decode_text(v, n) == Ok::<Seq<u8>, DecodeError>(Seq::<u8>::empty()));
        assert(b =~= Seq::<u8>::empty());
    } else if n == 2 || n == 4 {
        // the padding window is inside the text and holds a hex digit, so the
        // text cannot pass as padded base64
        assert(spec_base64_padded_size(n) == spec_hex_size(n));
        assert(spec_base64_unpadded_size(n) < spec_base64_padded_size(n));
        assert(v[spec_base64_unpadded_size(n) as int] != pad_byte());
        assert(!padding_window_ok(v, n));
    } else {
        assert(v.len() != spec_base64_padded_size(n));
    }
}

/// Round trip: for every byte array `b`, decoding the padded base64 encoding
/// of `b` against the target length `b.len()` gives back exactly `b`.
pub proof fn lemma_round_trip_base64_padded(b: Seq<u8>, n: nat)
    requires
        n == b.len(),
        n <= usize::MAX as nat / 4,
    ensures
        spec_decode_text(spec_b64_encode_padded(b), n) == Ok::<Seq<u8>, DecodeError>(b),
{
    lemma_b64_encode_props(b);
    lemma_size_relations(n);
    lemma_hex_padded_coincide(n);
    let e = spec_b64_encode(b);
    let v = spec_b64_encode_padded(b);
    lemma_all_symbols_first(e);
    assert(v.len() == spec_base64_padded_size(n));
    assert(v.take(spec_base64_unpadded_size(n) as int) =~= e);
    assert(padding_window_ok(v, n));
    if n == 0 {
        assert(v.len() == 0);
        assert(b =~= Seq::<u8>::empty());
    } else if n == 2 || n == 4 {
        assert(v.len() == spec_hex_size(n));
    }
}

/// Round trip: for a byte array whose length is a multiple of three, the
/// unpadded and the padded base64 encodings coincide, and decoding the
/// unpadded encoding gives back exactly the array. (For other lengths the
/// unpadded encoding's length matches no accepted text length, so the
/// classifier rejects it; a two-symbol encoding of a single byte even
/// collides with the hex length and is read as hex.)
pub proof fn lemma_round_trip_base64_unpadded(b: Seq<u8>, n: nat)
    requires
        n == b.len(),
        n % 3 == 0,
        n <= usize::MAX as nat / 4,
    ensures
        spec_decode_text(spec_b64_encode(b), n) == Ok::<Seq<u8>, DecodeError>(b),
{
    assert(spec_b64_encode_padded(b) == spec_b64_encode(b));
    lemma_round_trip_base64_padded(b, n);
}

/// A text whose length is neither the hex length nor the padded base64
/// length always fails with a length error citing the observed length.
pub proof fn lemma_length_error(v: Seq<u8>, n: nat)
    requires
        v.len() != spec_hex_size(n),
        v.len() != spec_base64_padded_size(n),
    ensures
        spec_decode_text(v, n) == Err::<Seq<u8>, DecodeError>(
            DecodeError::Length(v.len() as usize),
        ),
{
}

/// For a target length of zero, only an empty text, an empty blob and an
/// empty sequence succeed, each with an empty result.
pub proof fn lemma_zero_target(v: Seq<u8>, hint: Option<usize>)
    ensures
        spec_decode_text(v, 0) is Ok <==> v.len() == 0,
        spec_decode_bytes(v, 0) is Ok <==> v.len() == 0,
        spec_decode_seq(hint, v, 0) is Ok <==> (v.len() == 0 && (hint is None || hint == Some(
            0usize,
        ))),
        spec_decode_text(v, 0) matches Ok(b) ==> b.len() == 0,
        spec_decode_bytes(v, 0) matches Ok(b) ==> b.len() == 0,
        spec_decode_seq(hint, v, 0) matches Ok(b) ==> b.len() == 0,
{
}

/// A hex-length text whose first non-hex-digit stands at index `i` fails
/// with an invalid-character error carrying that character and index, as
/// long as the padding window does not reclassify the text as base64 (for
/// target lengths 2 and 4) — the window being the only tiebreaker there.
pub proof fn lemma_hex_invalid_character(v: Seq<u8>, n: nat, i: int)
    requires
        n != 0,
        v.len() == spec_hex_size(n),
        (n == 2 || n == 4) ==> !padding_window_ok(v, n),
        0 <= i < v.len(),
        !is_hex_digit(v[i]),
        forall|j: int| 0 <= j < i ==> is_hex_digit(v[j]),
    ensures
        spec_decode_text(v, n) == Err::<Seq<u8>, DecodeError>(
            DecodeError::InvalidCharacter(v[i] as char, i as usize),
        ),
{
    lemma_hex_padded_coincide(n);
    lemma_first_non_hex(v);
    let f = crate::hex_codec::first_non_hex(v);
    if f < i {
        assert(is_hex_digit(v[f]));
        assert(false);
    }
    if f > i {
        assert(!is_hex_digit(v[i]));
        assert(false);
    }
    assert(f == i);
}

/// The decoded value is never silently truncated or padded: a successful
/// decode of any shape yields exactly `n` bytes.
pub proof fn lemma_decoded_length(src: crate::shapes::Source, n: nat)
    ensures
        crate::shapes::spec_decode_source(src, n) matches Ok(b) ==> b.len() == n,
{
    match src {
        crate::shapes::Source::Text(v) => {
            lemma_spec_hex_decode_len(v@);
        },
        crate::shapes::Source::RawBytes(_) => {},
        crate::shapes::Source::IntegerSequence(_, _) => {},
    }
}

/// Idempotence: whatever text a decode succeeded on, re-encoding the decoded
/// bytes in hex or in padded base64 and decoding again, with the same target
/// length, reproduces exactly those bytes.
pub proof fn lemma_reencode_idempotent(v: Seq<u8>, n: nat, b: Seq<u8>)
    requires
        n <= usize::MAX as nat / 4,
        spec_decode_text(v, n) == Ok::<Seq<u8>, DecodeError>(b),
    ensures
        b.len() == n,
        spec_decode_text(spec_hex_encode(b), n) == Ok::<Seq<u8>, DecodeError>(b),
        spec_decode_text(spec_b64_encode_padded(b), n) == Ok::<Seq<u8>, DecodeError>(b),
{
    lemma_spec_hex_decode_len(v);
    lemma_round_trip_hex(b, n);
    lemma_round_trip_base64_padded(b, n);
}

} // verus!
