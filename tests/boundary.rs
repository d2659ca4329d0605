use message_format::boundary::{decode_message, encode_reply};
use message_format::format::{format_message, format_message_logged};

#[test]
fn test_ffi_function() {
    let input = "FFI Test".as_bytes();
    let text = decode_message(Some(input)).unwrap();
    let reply = format_message_logged(&text, Ok(())).into_text();
    let buf = encode_reply(&reply);
    assert!(buf.is_some());
    let buf = buf.unwrap();
    assert_eq!(buf.last(), Some(&0u8));
    let result_str = std::str::from_utf8(&buf[..buf.len() - 1]).unwrap();
    assert_eq!(result_str, "Message received: [FFI Test]");
}

#[test]
fn test_ffi_null_input() {
    let result = decode_message(None);
    assert!(result.is_none());
}

#[test]
fn invalid_utf8_input_gives_no_reply() {
    assert_eq!(decode_message(Some(&[0x66, 0xff, 0xfe])), None);
    assert_eq!(decode_message(Some(&[0xc3])), None);
    assert_eq!(decode_message(Some(&[0xed, 0xa0, 0x80])), None);
}

#[test]
fn valid_utf8_input_is_decoded() {
    let bytes = "héllo ✓".as_bytes();
    assert_eq!(decode_message(Some(bytes)), Some("héllo ✓".to_string()));
    assert_eq!(decode_message(Some(&[])), Some(String::new()));
}

#[test]
fn reply_is_encoded_with_a_terminator() {
    assert_eq!(encode_reply("ab"), Some(vec![b'a', b'b', 0]));
    assert_eq!(encode_reply(""), Some(vec![0]));
    assert_eq!(encode_reply("é"), Some(vec![0xc3, 0xa9, 0]));
}

#[test]
fn reply_with_a_zero_byte_cannot_be_encoded() {
    assert_eq!(encode_reply("a\0b"), None);
    assert_eq!(encode_reply("\0"), None);
}

#[test]
fn input_with_a_zero_byte_gives_no_reply() {
    let text = decode_message(Some(b"a\0b")).unwrap();
    assert_eq!(encode_reply(&format_message(&text)), None);
}

#[test]
fn store_error_with_a_zero_byte_gives_no_reply() {
    let reply = format_message_logged("ok", Err("bad\0error".to_string())).into_text();
    assert_eq!(encode_reply(&reply), None);
}

#[test]
fn reply_round_trips_through_the_boundary() {
    let inputs = ["", "FFI Test", "Test!@#$%", "héllo ✓ [x]"];
    for s in inputs {
        let text = decode_message(Some(s.as_bytes())).unwrap();
        let buf = encode_reply(&format_message(&text)).unwrap();
        let back = std::str::from_utf8(&buf[..buf.len() - 1]).unwrap();
        assert_eq!(back, format_message(s));
    }
}
