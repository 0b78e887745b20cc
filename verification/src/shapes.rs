//! The shape adapter and the decode facade: the three legal source shapes are
//! reduced to the `n`-byte result, which a caller-supplied fallible conversion
//! then turns into the caller's own type.

use vstd::prelude::*;
use vstd::slice::slice_to_vec;

use crate::classify::decode_text;
use crate::classify::spec_decode_text;
use crate::error::DecodeError;
use crate::hex_codec::res_matches;

verus! {

/// A raw binary blob is accepted exactly when it already holds `n` bytes.
pub open spec fn spec_decode_bytes(v: Seq<u8>, n: nat) -> Result<Seq<u8>, DecodeError> {
    if v.len() == n {
        Ok(v)
    } else {
        Err(DecodeError::Length(v.len() as usize))
    }
}

/// Decodes a raw binary blob: exactly `n` bytes, returned as they are.
pub fn decode_bytes(v: &[u8], n: usize) -> (r: Result<Vec<u8>, DecodeError>)
    ensures
        res_matches(r, spec_decode_bytes(v@, n as nat)),
{
    if v.len() == n {
        Ok(slice_to_vec(v))
    } else {
        Err(DecodeError::Length(v.len()))
    }
}

/// An integer sequence is accepted exactly when it yielded `n` elements; a
/// short or long one is a length error citing the count actually seen, and a
/// length announced in advance that disagrees with `n` is rejected before any
/// element is looked at.
pub open spec fn spec_decode_seq(hint: Option<usize>, items: Seq<u8>, n: nat) -> Result<
    Seq<u8>,
    DecodeError,
> {
    match hint {
        Some(l) => if l != n {
            Err(DecodeError::Length(l))
        } else {
            spec_decode_counted(items, n)
        },
        None => spec_decode_counted(items, n),
    }
}

pub open spec fn spec_decode_counted(items: Seq<u8>, n: nat) -> Result<Seq<u8>, DecodeError> {
    if items.len() == n {
        Ok(items)
    } else {
        Err(DecodeError::Length(items.len() as usize))
    }
}

/// Decodes an integer sequence already drained into `items` (draining, not
/// merely detecting, is what makes the count in the error exact), with the
/// source's announced length in `hint` where it had one.
pub fn decode_seq(hint: Option<usize>, items: &[u8], n: usize) -> (r: Result<Vec<u8>, DecodeError>)
    ensures
        res_matches(r, spec_decode_seq(hint, items@, n as nat)),
{
    match hint {
        Some(l) => {
            if l != n {
                return Err(DecodeError::Length(l));
            }
        },
        None => {},
    }
    if items.len() == n {
        Ok(slice_to_vec(items))
    } else {
        Err(DecodeError::Length(items.len()))
    }
}

/// The three shapes a source can present: a text, a raw binary blob, or an
/// ordered sequence of byte-range integers with an optional announced length.
pub enum Source {
    Text(Vec<u8>),
    RawBytes(Vec<u8>),
    IntegerSequence(Option<usize>, Vec<u8>),
}

/// What decoding a source against a target length `n` yields.
pub open spec fn spec_decode_source(src: Source, n: nat) -> Result<Seq<u8>, DecodeError> {
    match src {
        Source::Text(v) => spec_decode_text(v@, n),
        Source::RawBytes(v) => spec_decode_bytes(v@, n),
        Source::IntegerSequence(hint, v) => spec_decode_seq(hint, v@, n),
    }
}

/// Reduces a source of any shape to the `n`-byte result.
pub fn decode_source(src: &Source, n: usize) -> (r: Result<Vec<u8>, DecodeError>)
    requires
        n <= usize::MAX / 4,
    ensures
        res_matches(r, spec_decode_source(*src, n as nat)),
{
    match src {
        Source::Text(v) => decode_text(v.as_slice(), n),
        Source::RawBytes(v) => decode_bytes(v.as_slice(), n),
        Source::IntegerSequence(hint, v) => decode_seq(*hint, v.as_slice(), n),
    }
}

/// A target type fallibly constructible from a byte array of the right
/// length; the library's callers supply the conversion.
pub trait FromByteArray: Sized + View {
    /// The view of the value the bytes convert into; `None` where the
    /// conversion fails.
    spec fn spec_from_bytes(s: Seq<u8>) -> Option<Self::V>;

    /// The conversion itself; the message of a failure is the conversion's
    /// own.
    fn try_from_bytes(b: &[u8]) -> (r: Result<Self, String>)
        ensures
            r is Ok <==> Self::spec_from_bytes(b@) is Some,
            r matches Ok(t) ==> Self::spec_from_bytes(b@) == Some(t@),
    ;
}

impl FromByteArray for Vec<u8> {
    open spec fn spec_from_bytes(s: Seq<u8>) -> Option<Seq<u8>> {
        Some(s)
    }

    fn try_from_bytes(b: &[u8]) -> (r: Result<Vec<u8>, String>) {
        Ok(slice_to_vec(b))
    }
}

/// The only public entry point: reduces the source to the `n`-byte array,
/// then applies the caller's conversion; a conversion failure is surfaced as
/// a conversion error, never as a length or value error, since the byte count
/// was already proven right.
pub fn decode<T: FromByteArray>(src: &Source, n: usize) -> (r: Result<T, DecodeError>)
    requires
        n <= usize::MAX / 4,
    ensures
        match spec_decode_source(*src, n as nat) {
            Ok(bytes) => match T::spec_from_bytes(bytes) {
                Some(tv) => r matches Ok(t) && t@ == tv,
                None => r matches Err(e) && e is Conversion,
            },
            Err(e) => r matches Err(e2) && e2 == e,
        },
{
    let bytes = match decode_source(src, n) {
        Ok(b) => b,
        Err(e) => {
            return Err(e);
        },
    };
    match T::try_from_bytes(bytes.as_slice()) {
        Ok(t) => Ok(t),
        Err(m) => Err(DecodeError::Conversion(m)),
    }
}

} // verus!
