//! The error surface of the decoder: structured variants carrying the kind of
//! failure and its positional context. Human-readable message formatting is
//! left to a presentation layer.

use vstd::prelude::*;
use vstd::slice::slice_index_get;

verus! {

/// Where malformed base64 padding was found.
#[derive(Debug, Clone, PartialEq, Eq, Structural)]
pub enum PaddingIssue {
    /// The window of indices `[from, to]` had to consist of pad bytes only,
    /// but held something else.
    Window(usize, usize),
    /// A pad byte appeared inside the base64 symbol stream itself.
    InStream,
}

/// A terminal decoding failure. No variant carries partial decoded data.
#[derive(Debug, Clone)]
pub enum DecodeError {
    /// Wrong number of bytes, characters or elements; carries the observed
    /// count. What was expected follows from the target length alone.
    Length(usize),
    /// Hex decoding hit a non-hex-digit: the character and its index.
    InvalidCharacter(char, usize),
    /// Base64 decoding hit a byte outside the alphabet: the byte and its index.
    InvalidByte(u8, usize),
    /// Base64 padding malformed.
    InvalidPadding(PaddingIssue),
    /// The final base64 symbol encodes nonzero bits beyond the target length:
    /// the byte and its index.
    InvalidLastSymbol(u8, usize),
    /// The byte count was right but the caller's conversion of the byte array
    /// into its own type failed; the message is the conversion's own.
    Conversion(String),
}

/// Equality of two errors: same variant, same fields; conversion messages are
/// compared by their UTF-8 bytes.
pub open spec fn error_eq(a: DecodeError, b: DecodeError) -> bool {
    match (a, b) {
        (DecodeError::Length(x), DecodeError::Length(y)) => x == y,
        (DecodeError::InvalidCharacter(c, i), DecodeError::InvalidCharacter(d, j)) => c == d && i
            == j,
        (DecodeError::InvalidByte(x, i), DecodeError::InvalidByte(y, j)) => x == y && i == j,
        (DecodeError::InvalidPadding(p), DecodeError::InvalidPadding(q)) => p == q,
        (DecodeError::InvalidLastSymbol(x, i), DecodeError::InvalidLastSymbol(y, j)) => x == y && i
            == j,
        (DecodeError::Conversion(m), DecodeError::Conversion(o)) => vstd::utf8::encode_utf8(m@)
            == vstd::utf8::encode_utf8(o@),
        _ => false,
    }
}

/// Byte-by-byte equality of two slices.
pub fn bytes_eq(a: &[u8], b: &[u8]) -> (r: bool)
    ensures
        r == (a@ == b@),
{
    if a.len() != b.len() {
        proof {
            assert(a@.len() != b@.len());
        }
        return false;
    }
    let mut i: usize = 0;
    while i < a.len()
        invariant
            0 <= i <= a@.len(),
            a@.len() == b@.len(),
            forall|j: int| 0 <= j < i ==> a@[j] == b@[j],
        decreases a@.len() - i,
    {
        if *slice_index_get(a, i) != *slice_index_get(b, i) {
            proof {
                assert(a@[i as int] != b@[i as int]);
            }
            return false;
        }
        i = i + 1;
    }
    proof {
        assert(a@ =~= b@);
    }
    true
}

impl PartialEq for DecodeError {
    fn eq(&self, other: &DecodeError) -> (r: bool) {
        match (self, other) {
            (DecodeError::Length(x), DecodeError::Length(y)) => x == y,
            (DecodeError::InvalidCharacter(c, i), DecodeError::InvalidCharacter(d, j)) => c == d
                && i == j,
            (DecodeError::InvalidByte(x, i), DecodeError::InvalidByte(y, j)) => x == y && i == j,
            (DecodeError::InvalidPadding(p), DecodeError::InvalidPadding(q)) => p == q,
            (DecodeError::InvalidLastSymbol(x, i), DecodeError::InvalidLastSymbol(y, j)) => x == y
                && i == j,
            (DecodeError::Conversion(m), DecodeError::Conversion(o)) => bytes_eq(
                m.as_str().as_bytes(),
                o.as_str().as_bytes(),
            ),
            _ => false,
        }
    }
}

impl vstd::std_specs::cmp::PartialEqSpecImpl for DecodeError {
    open spec fn obeys_eq_spec() -> bool {
        true
    }

    open spec fn eq_spec(&self, other: &DecodeError) -> bool {
        error_eq(*self, *other)
    }
}

} // verus!
