use fins::is_lowercase_ascii_hexdigit;
use fins::Channel;
use fins::ChannelParseError;

#[test]
fn valid() {
    let result = Channel::try_from("0123456789abcdef00000000");
    assert_eq!(result.unwrap().as_str(), "0123456789abcdef00000000");
}

#[test]
fn invalid_characters() {
    let result = Channel::try_from("A00000000000000000000000");
    assert_eq!(result.unwrap_err(), ChannelParseError::InvalidCharacters);
    let result = Channel::try_from("z00000000000000000000000");
    assert_eq!(result.unwrap_err(), ChannelParseError::InvalidCharacters);
    let result = Channel::try_from("\u{c4}0000000000000000000000");
    assert_eq!(result.unwrap_err(), ChannelParseError::InvalidCharacters);
}

#[test]
fn invalid_length() {
    // too short
    let result = Channel::try_from("a");
    assert_eq!(result.unwrap_err(), ChannelParseError::Length(1));
    // too long
    let result = Channel::try_from("a00000000000000000000000a");
    assert_eq!(result.unwrap_err(), ChannelParseError::Length(25));
    // size is in bytes and not characters
    let result = Channel::try_from("\u{c4}00000000000000000000000");
    assert_eq!(result.unwrap_err(), ChannelParseError::Length(25));
}

#[test]
fn lowercase_hexdigits() {
    assert!(is_lowercase_ascii_hexdigit('0'));
    assert!(is_lowercase_ascii_hexdigit('9'));
    assert!(is_lowercase_ascii_hexdigit('a'));
    assert!(is_lowercase_ascii_hexdigit('f'));
    assert!(!is_lowercase_ascii_hexdigit('A'));
    assert!(!is_lowercase_ascii_hexdigit('F'));
    assert!(!is_lowercase_ascii_hexdigit('g'));
    assert!(!is_lowercase_ascii_hexdigit('\u{c4}'));
}
