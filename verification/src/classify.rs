//! The encoding classifier and the text decoder: from the target length and
//! the text's length (and, where lengths cannot disambiguate, the contents of
//! the padding window) to the hex or the base64 decoder, or a length error.

use vstd::prelude::*;
use vstd::slice::slice_index_get;

use crate::base64_codec::decode_base64;
use crate::base64_codec::pad_byte;
use crate::base64_codec::spec_decode_base64;
use crate::error::DecodeError;
use crate::error::PaddingIssue;
use crate::hex_codec::decode_hex;
use crate::hex_codec::res_matches;
use crate::hex_codec::spec_decode_hex;
use crate::sizes::base64_padded_size;
use crate::sizes::base64_unpadded_size;
use crate::sizes::hex_size;
use crate::sizes::lemma_size_relations;
use crate::sizes::spec_base64_padded_size;
use crate::sizes::spec_base64_unpadded_size;
use crate::sizes::spec_hex_size;

verus! {

/// Every byte of the window `[base64_unpadded_size(n), base64_padded_size(n))`
/// is a pad byte.
pub open spec fn padding_window_ok(v: Seq<u8>, n: nat) -> bool {
    forall|i: int|
        spec_base64_unpadded_size(n) <= i < spec_base64_padded_size(n) ==> v[i] == pad_byte()
}

/// Inspects the padding window of a text that is at least as long as the
/// padded base64 encoding of `n` bytes.
pub fn base64_check_padding(v: &[u8], n: usize) -> (r: bool)
    requires
        n <= usize::MAX / 4,
        v@.len() >= spec_base64_padded_size(n as nat),
    ensures
        r == padding_window_ok(v@, n as nat),
{
    proof {
        lemma_size_relations(n as nat);
    }
    let start = base64_unpadded_size(n);
    let end = base64_padded_size(n);
    let mut i = start;
    while i < end
        invariant
            start <= i <= end,
            v@.len() >= end,
            start == spec_base64_unpadded_size(n as nat),
            end == spec_base64_padded_size(n as nat),
            forall|j: int| start <= j < i ==> v@[j] == pad_byte(),
        decreases end - i,
    {
        // the pad byte `=`
        if *slice_index_get(v, i) != 61u8 {
            proof {
                assert(v@[i as int] != pad_byte());
            }
            return false;
        }
        i = i + 1;
    }
    true
}

/// What decoding a text `v` against a target length `n` yields.
///
/// For `n` of 0, 2 or 4 the hex and the padded base64 lengths coincide, so
/// exactly one text length is legal and the padding window tells the two
/// encodings apart. Everywhere else the padded base64 length is conclusive
/// for base64 (a half-filled padding window is then a padding error, not hex),
/// the hex length is conclusive for hex, and any other length is a length
/// error citing the observed length.
pub open spec fn spec_decode_text(v: Seq<u8>, n: nat) -> Result<Seq<u8>, DecodeError> {
    if n == 0 {
        if v.len() == 0 {
            Ok(Seq::empty())
        } else {
            Err(DecodeError::Length(v.len() as usize))
        }
    } else if n == 2 || n == 4 {
        if v.len() != spec_hex_size(n) {
            Err(DecodeError::Length(v.len() as usize))
        } else if padding_window_ok(v, n) {
            spec_decode_base64(v, n)
        } else {
            spec_decode_hex(v, n)
        }
    } else {
        if v.len() == spec_base64_padded_size(n) {
            if padding_window_ok(v, n) {
                spec_decode_base64(v, n)
            } else {
                Err(
                    DecodeError::InvalidPadding(
                        PaddingIssue::Window(
                            spec_base64_unpadded_size(n) as usize,
                            (spec_base64_padded_size(n) - 1) as usize,
                        ),
                    ),
                )
            }
        } else if v.len() == spec_hex_size(n) {
            spec_decode_hex(v, n)
        } else {
            Err(DecodeError::Length(v.len() as usize))
        }
    }
}

/// Decodes a text into exactly `n` bytes, classifying it as hex or base64
/// from its length and, where needed, its padding window.
pub fn decode_text(v: &[u8], n: usize) -> (r: Result<Vec<u8>, DecodeError>)
    requires
        n <= usize::MAX / 4,
    ensures
        res_matches(r, spec_decode_text(v@, n as nat)),
{
    proof {
        lemma_size_relations(n as nat);
    }
    if n == 0 {
        if v.len() != 0 {
            return Err(DecodeError::Length(v.len()));
        }
        return Ok(Vec::new());
    }
    if n == 2 || n == 4 {
        if v.len() != hex_size(n) {
            return Err(DecodeError::Length(v.len()));
        }
        if base64_check_padding(v, n) {
            decode_base64(v, n)
        } else {
            decode_hex(v, n)
        }
    } else {
        let padded = base64_padded_size(n);
        if v.len() == padded {
            if base64_check_padding(v, n) {
                decode_base64(v, n)
            } else {
                Err(
                    DecodeError::InvalidPadding(
                        PaddingIssue::Window(base64_unpadded_size(n), padded - 1),
                    ),
                )
            }
        } else if v.len() == hex_size(n) {
            decode_hex(v, n)
        } else {
            Err(DecodeError::Length(v.len()))
        }
    }
}

} // verus!
