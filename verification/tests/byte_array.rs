use base64::Engine;
use fins::base64_check_padding;
use fins::base64_padded_size;
use fins::base64_unpadded_size;
use fins::decode;
use fins::decode_bytes;
use fins::decode_seq;
use fins::decode_source;
use fins::decode_text;
use fins::div_ceil;
use fins::hex_size;
use fins::DecodeError;
use fins::PaddingIssue;
use fins::Source;

#[test]
fn it_works() {
    let result = 2 + 2;
    assert_eq!(result, 4);
}

#[test]
fn sizes() {
    assert_eq!(hex_size(0), 0);
    assert_eq!(hex_size(3), 6);
    assert_eq!(div_ceil(0, 3), 0);
    assert_eq!(div_ceil(7, 3), 3);
    assert_eq!(div_ceil(9, 3), 3);
    assert_eq!(base64_unpadded_size(1), 2);
    assert_eq!(base64_unpadded_size(2), 3);
    assert_eq!(base64_unpadded_size(3), 4);
    assert_eq!(base64_unpadded_size(5), 7);
    assert_eq!(base64_padded_size(1), 4);
    assert_eq!(base64_padded_size(2), 4);
    assert_eq!(base64_padded_size(3), 4);
    assert_eq!(base64_padded_size(5), 8);
}

#[test]
fn hex_and_padded_lengths_coincide_only_for_tiny_targets() {
    for n in 0..64usize {
        let coincide = hex_size(n) == base64_padded_size(n);
        assert_eq!(coincide, n == 0 || n == 2 || n == 4);
    }
}

#[test]
fn padding_window() {
    assert!(base64_check_padding(b"AAA=", 2));
    assert!(!base64_check_padding(b"0000", 2));
    assert!(base64_check_padding(b"AAAAAA==", 4));
    assert!(!base64_check_padding(b"AAAAAA=x", 4));
}

#[test]
fn two_byte_target_hex() {
    assert_eq!(decode_text(b"0000", 2), Ok(vec![0x00, 0x00]));
    assert_eq!(decode_text(b"f00d", 2), Ok(vec![0xf0, 0x0d]));
    assert_eq!(decode_text(b"F00D", 2), Ok(vec![0xf0, 0x0d]));
}

#[test]
fn two_byte_target_base64() {
    assert_eq!(decode_text(b"AAA=", 2), Ok(vec![0x00, 0x00]));
    let text = base64::prelude::BASE64_STANDARD.encode([0xff, 0xee]);
    assert_eq!(decode_text(text.as_bytes(), 2), Ok(vec![0xff, 0xee]));
}

#[test]
fn three_byte_target_disambiguates_by_length() {
    assert_eq!(decode_text(b"AAAA", 3), Ok(vec![0x00, 0x00, 0x00]));
    assert_eq!(decode_text(b"000000", 3), Ok(vec![0x00, 0x00, 0x00]));
    assert_eq!(
        decode_text(b"////////", 6),
        Ok(vec![0xff, 0xff, 0xff, 0xff, 0xff, 0xff])
    );
}

#[test]
fn wrong_length_is_a_length_error() {
    assert_eq!(decode_text(b"abc", 4), Err(DecodeError::Length(3)));
    assert_eq!(decode_text(b"00000", 3), Err(DecodeError::Length(5)));
    assert_eq!(decode_text(b"AA", 2), Err(DecodeError::Length(2)));
    assert_eq!(decode_text(b"", 1), Err(DecodeError::Length(0)));
}

#[test]
fn zero_length_target() {
    assert_eq!(decode_text(b"", 0), Ok(vec![]));
    assert_eq!(decode_text(b"x", 0), Err(DecodeError::Length(1)));
    assert_eq!(decode_bytes(b"", 0), Ok(vec![]));
    assert_eq!(decode_bytes(b"x", 0), Err(DecodeError::Length(1)));
    assert_eq!(decode_seq(None, &[], 0), Ok(vec![]));
    assert_eq!(decode_seq(None, &[7], 0), Err(DecodeError::Length(1)));
}

#[test]
fn raw_blob_lengths() {
    assert_eq!(decode_bytes(&[1, 2, 3, 4], 4), Ok(vec![1, 2, 3, 4]));
    assert_eq!(decode_bytes(&[1, 2, 3], 4), Err(DecodeError::Length(3)));
    assert_eq!(decode_bytes(&[1, 2, 3, 4, 5], 4), Err(DecodeError::Length(5)));
}

#[test]
fn integer_sequence_counts() {
    assert_eq!(decode_seq(None, &[9, 8, 7], 3), Ok(vec![9, 8, 7]));
    assert_eq!(decode_seq(None, &[9, 8], 3), Err(DecodeError::Length(2)));
    assert_eq!(decode_seq(None, &[9, 8, 7, 6, 5], 3), Err(DecodeError::Length(5)));
    assert_eq!(decode_seq(Some(2), &[9, 8], 3), Err(DecodeError::Length(2)));
    assert_eq!(decode_seq(Some(3), &[9, 8, 7], 3), Ok(vec![9, 8, 7]));
}

#[test]
fn invalid_hex_character_is_reported_at_its_index() {
    assert_eq!(
        decode_text(b"00g000", 3),
        Err(DecodeError::InvalidCharacter('g', 2))
    );
    assert_eq!(
        decode_text(b"0G0000", 3),
        Err(DecodeError::InvalidCharacter('G', 1))
    );
    assert_eq!(
        decode_text(b"000z", 2),
        Err(DecodeError::InvalidCharacter('z', 3))
    );
}

#[test]
fn invalid_base64_byte_is_reported_at_its_index() {
    assert_eq!(decode_text(b"A?AA", 3), Err(DecodeError::InvalidByte(b'?', 1)));
}

#[test]
fn invalid_last_symbol() {
    assert_eq!(
        decode_text(b"//==", 1),
        Err(DecodeError::InvalidLastSymbol(b'/', 1))
    );
}

#[test]
fn half_filled_padding_window() {
    assert_eq!(
        decode_text(b"AAAAAAAAAAA=", 7),
        Err(DecodeError::InvalidPadding(PaddingIssue::Window(10, 11)))
    );
}

#[test]
fn stray_padding_in_symbols() {
    assert_eq!(
        decode_text(b"AB==", 2),
        Err(DecodeError::InvalidPadding(PaddingIssue::InStream))
    );
}

#[test]
fn round_trips() {
    for len in 0..24usize {
        let bytes: Vec<u8> = (0..len as u8).map(|i| i.wrapping_mul(37).wrapping_add(11)).collect();
        let hex_text = hex::encode(&bytes);
        assert_eq!(decode_text(hex_text.as_bytes(), len), Ok(bytes.clone()));
        let padded = base64::prelude::BASE64_STANDARD.encode(&bytes);
        assert_eq!(decode_text(padded.as_bytes(), len), Ok(bytes.clone()));
        if len % 3 == 0 {
            let unpadded = base64::prelude::BASE64_STANDARD_NO_PAD.encode(&bytes);
            assert_eq!(decode_text(unpadded.as_bytes(), len), Ok(bytes.clone()));
        }
    }
}

#[test]
fn redecoding_reencoded_output_is_stable() {
    let first = decode_text(b"q83v", 3).unwrap();
    assert_eq!(first, vec![0xab, 0xcd, 0xef]);
    let reencoded = base64::prelude::BASE64_STANDARD.encode(&first);
    assert_eq!(decode_text(reencoded.as_bytes(), 3), Ok(first.clone()));
    let rehexed = hex::encode(&first);
    assert_eq!(decode_text(rehexed.as_bytes(), 3), Ok(first));
}

#[test]
fn facade_decodes_every_shape() {
    assert_eq!(
        decode_source(&Source::Text(b"0102".to_vec()), 2),
        Ok(vec![1, 2])
    );
    assert_eq!(
        decode_source(&Source::RawBytes(vec![1, 2]), 2),
        Ok(vec![1, 2])
    );
    assert_eq!(
        decode_source(&Source::IntegerSequence(None, vec![1, 2]), 2),
        Ok(vec![1, 2])
    );
    let value: Result<Vec<u8>, DecodeError> = decode(&Source::Text(b"AAA=".to_vec()), 2);
    assert_eq!(value, Ok(vec![0, 0]));
}
