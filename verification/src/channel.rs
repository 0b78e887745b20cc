//! The fixed-format channel identifier carried in a request header: exactly
//! 24 bytes, all of them lowercase hex digits. The length is counted in
//! bytes, not characters, so a non-ASCII character inside an otherwise
//! 24-character text is rejected as a length mismatch.

use vstd::prelude::*;
use vstd::slice::slice_index_get;
use vstd::utf8::encode_utf8;

verus! {

/// A lowercase hex digit byte: `0`-`9` or `a`-`f`.
pub open spec fn is_lower_hex_byte(b: u8) -> bool {
    (48 <= b && b <= 57) || (97 <= b && b <= 102)
}

/// A legal channel identifier, as UTF-8 bytes: exactly 24 lowercase hex
/// digit bytes.
pub open spec fn spec_channel_ok(bytes: Seq<u8>) -> bool {
    bytes.len() == 24 && forall|i: int| 0 <= i < bytes.len() ==> is_lower_hex_byte(bytes[i])
}

/// A lowercase hex digit character: `0`-`9` or `a`-`f`, by code point.
pub open spec fn is_lower_hex_char(c: char) -> bool {
    (48 <= c as u32 && c as u32 <= 57) || (97 <= c as u32 && c as u32 <= 102)
}

/// A text whose UTF-8 bytes are all lowercase hex digits is ASCII: it has as
/// many characters as bytes, and every character is a lowercase hex digit.
pub proof fn lemma_hex_bytes_are_chars(s: Seq<char>)
    requires
        forall|i: int|
            0 <= i < encode_utf8(s).len() ==> is_lower_hex_byte(#[trigger] encode_utf8(s)[i]),
    ensures
        s.len() == encode_utf8(s).len(),
        forall|i: int| 0 <= i < s.len() ==> is_lower_hex_char(#[trigger] s[i]),
    decreases s.len(),
{
    if s.len() > 0 {
        let c = s[0] as u32;
        let enc = vstd::utf8::encode_scalar(c);
        let rest = encode_utf8(s.drop_first());
        assert(encode_utf8(s) == enc + rest);
        vstd::utf8::char_is_scalar(s[0]);
        if !vstd::utf8::has_width_1_encoding(c) {
            // a wider encoding's leading byte starts with set high bits and
            // can be no hex digit
            assert((0xC0u8 | (((c >> 6) & 0x1F) as u8)) >= 0xC0) by (bit_vector);
            assert((0xE0u8 | (((c >> 12) & 0xF) as u8)) >= 0xC0) by (bit_vector);
            assert((0xF0u8 | (((c >> 18) & 0x7) as u8)) >= 0xC0) by (bit_vector);
            assert(enc[0] >= 0xC0);
            assert(is_lower_hex_byte(encode_utf8(s)[0]));
            assert(false);
        }
        assert(enc =~= seq![(c & 0x7F) as u8]);
        assert((c & 0x7F) == c) by (bit_vector)
            requires
                c <= 0x7F,
        ;
        assert(is_lower_hex_byte(encode_utf8(s)[0]));
        assert(is_lower_hex_byte(c as u8));
        assert((48 <= c && c <= 57) || (97 <= c && c <= 102)) by (bit_vector)
            requires
                c <= 0x7F && ((48 <= (c as u8) && (c as u8) <= 57) || (97 <= (c as u8) && (c as u8)
                    <= 102)),
        ;
        assert(is_lower_hex_char(s[0]));
        assert forall|i: int|
            0 <= i < rest.len() implies is_lower_hex_byte(#[trigger] rest[i]) by {
            assert(rest[i] == encode_utf8(s)[i + 1]);
        }
        lemma_hex_bytes_are_chars(s.drop_first());
        assert forall|i: int| 0 <= i < s.len() implies is_lower_hex_char(#[trigger] s[i]) by {
            if i >= 1 {
                assert(is_lower_hex_char(s.drop_first()[i - 1]));
            }
        }
    }
}

/// A validated channel identifier.
#[derive(Debug)]
pub struct Channel {
    text: String,
}

impl View for Channel {
    type V = Seq<char>;

    closed spec fn view(&self) -> Seq<char> {
        self.text@
    }
}

/// Why a header value failed to parse as a channel identifier.
#[derive(Debug, PartialEq, Eq, Structural)]
pub enum ChannelParseError {
    /// Wrong byte length; carries the observed one.
    Length(usize),
    /// Right length, but a byte that is no lowercase hex digit.
    InvalidCharacters,
}

/// Why a request carried no usable channel identifier.
#[derive(Debug, PartialEq, Eq, Structural)]
pub enum ChannelError {
    /// The header was absent altogether.
    Missing,
    /// The header was present but its value failed to parse.
    Parsing(ChannelParseError),
}

/// Whether `c` is a lowercase ASCII hex digit.
pub fn is_lowercase_ascii_hexdigit(c: char) -> (r: bool)
    ensures
        r == is_lower_hex_char(c),
{
    let u = c as u32;
    (48 <= u && u <= 57) || (97 <= u && u <= 102)
}

impl Channel {
    /// The identifier is well formed: its UTF-8 bytes are a legal channel.
    pub open spec fn wf(self) -> bool {
        spec_channel_ok(encode_utf8(self@))
    }

    /// The identifier's text.
    pub fn as_str(&self) -> (r: &str)
        ensures
            r@ == self@,
    {
        self.text.as_str()
    }

    /// Parses a header value: the byte length must be exactly 24 and every
    /// byte a lowercase hex digit, checked in that order.
    pub fn try_from(channel: &str) -> (r: Result<Channel, ChannelParseError>)
        ensures
            r is Ok <==> spec_channel_ok(encode_utf8(channel@)),
            r matches Ok(c) ==> c@ == channel@ && c.wf(),
            r is Ok ==> channel@.len() == 24 && (forall|i: int|
                0 <= i < channel@.len() ==> is_lower_hex_char(#[trigger] channel@[i])),
            r == Err::<Channel, ChannelParseError>(
                ChannelParseError::Length(encode_utf8(channel@).len() as usize),
            ) <==> encode_utf8(channel@).len() != 24,
            r matches Err(e) && e is InvalidCharacters ==> encode_utf8(channel@).len() == 24 && (
            exists|i: int|
                0 <= i < encode_utf8(channel@).len() && !is_lower_hex_byte(
                    encode_utf8(channel@)[i],
                )),
    {
        let bytes = channel.as_bytes();
        if bytes.len() != 24 {
            return Err(ChannelParseError::Length(bytes.len()));
        }
        let mut i: usize = 0;
        while i < 24
            invariant
                bytes@ == encode_utf8(channel@),
                bytes@.len() == 24,
                0 <= i <= 24,
                forall|j: int| 0 <= j < i ==> is_lower_hex_byte(bytes@[j]),
            decreases 24 - i,
        {
            let b = *slice_index_get(bytes, i);
            if !((48 <= b && b <= 57) || (97 <= b && b <= 102)) {
                proof {
                    assert(!is_lower_hex_byte(bytes@[i as int]));
                }
                return Err(ChannelParseError::InvalidCharacters);
            }
            i = i + 1;
        }
        proof {
            lemma_hex_bytes_are_chars(channel@);
        }
        Ok(Channel { text: channel.to_owned() })
    }
}

} // verus!
