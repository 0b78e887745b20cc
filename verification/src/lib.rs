//! A fixed-length byte-array decoder: given a text, a raw binary blob or a
//! sequence of byte-range integers, and a target length `n` known at the
//! call site, it reconstructs exactly `n` bytes, telling hexadecimal from
//! base64 text purely by structure, and reports structured, positional
//! errors. Around it stand the small pieces the embedding service needs: the
//! channel-header parser, the error-response body, the log-line writer's
//! data, and the REST-client bootstrap.

pub mod base64_codec;
pub mod channel;
pub mod classify;
pub mod client;
pub mod error;
pub mod hex_codec;
pub mod laws;
pub mod logwriter;
pub mod response;
pub mod shapes;
pub mod sizes;

pub use channel::is_lowercase_ascii_hexdigit;
pub use channel::Channel;
pub use channel::ChannelError;
pub use channel::ChannelParseError;
pub use classify::base64_check_padding;
pub use classify::decode_text;
pub use client::create_client;
pub use client::Config;
pub use error::DecodeError;
pub use error::PaddingIssue;
pub use hex_codec::decode_hex;
pub use logwriter::trim_newline;
pub use logwriter::LogLevel;
pub use logwriter::LoggerWriter;
pub use response::ErrorResponse;
pub use response::JsonError;
pub use shapes::decode;
pub use shapes::decode_bytes;
pub use shapes::decode_seq;
pub use shapes::decode_source;
pub use shapes::FromByteArray;
pub use shapes::Source;
pub use sizes::base64_padded_size;
pub use sizes::base64_unpadded_size;
pub use sizes::div_ceil;
pub use sizes::hex_size;
pub use base64_codec::decode_base64;
