use timeline_server::encoding::{decode, encode, text_from_bytes};
use timeline_server::error::Error;

#[test]
fn decode_reads_base64_text() {
    assert_eq!(decode("aGVsbG8="), Ok("hello".to_string()));
    assert_eq!(decode(""), Ok(String::new()));
    assert_eq!(decode("eyJ0eXBlIjoib2ZmZXIifQ=="), Ok("{\"type\":\"offer\"}".to_string()));
}

#[test]
fn decode_does_not_hand_its_input_back() {
    assert_eq!(decode("YWJj"), Ok("abc".to_string()));
    assert_ne!(decode("YWJj"), Ok("YWJj".to_string()));
}

#[test]
fn decode_reads_text_beyond_ascii() {
    assert_eq!(decode("w6l0w6k="), Ok("\u{e9}t\u{e9}".to_string()));
}

#[test]
fn decode_refuses_what_is_not_base64() {
    assert_eq!(decode("not base64!"), Err(Error::InvalidBase64));
    assert_eq!(decode("aGVsbG8"), Err(Error::InvalidBase64));
    assert_eq!(decode("aGVsbG8=\n"), Err(Error::InvalidBase64));
}

#[test]
fn decode_refuses_bytes_that_are_not_utf8() {
    assert_eq!(decode("/w=="), Err(Error::InvalidUtf8));
    assert_eq!(decode("wyg="), Err(Error::InvalidUtf8));
}

#[test]
fn text_from_bytes_reads_utf8() {
    assert_eq!(text_from_bytes(vec![104, 105]), Ok("hi".to_string()));
    assert_eq!(text_from_bytes(vec![]), Ok(String::new()));
    assert_eq!(text_from_bytes(vec![0xe2, 0x82, 0xac]), Ok("\u{20ac}".to_string()));
}

#[test]
fn text_from_bytes_refuses_what_is_not_utf8() {
    assert_eq!(text_from_bytes(vec![0xff]), Err(Error::InvalidUtf8));
    assert_eq!(text_from_bytes(vec![0xc3, 0x28]), Err(Error::InvalidUtf8));
    assert_eq!(text_from_bytes(vec![0xe2, 0x82]), Err(Error::InvalidUtf8));
}

#[test]
fn encode_writes_base64_text() {
    assert_eq!(encode("hello"), "aGVsbG8=");
    assert_eq!(encode(""), "");
    assert_eq!(encode("abc"), "YWJj");
    assert_eq!(encode("{\"type\":\"offer\"}"), "eyJ0eXBlIjoib2ZmZXIifQ==");
    assert_eq!(encode("\u{e9}t\u{e9}"), "w6l0w6k=");
}

#[test]
fn encode_does_not_hand_its_input_back() {
    assert_ne!(encode("abc"), "abc");
}

#[test]
fn decode_reads_what_encode_wrote() {
    for text in ["", "a", "ab", "abc", "v=0\r\no=- 1 2 IN IP4 127.0.0.1\r\n", "\u{20ac}"] {
        assert_eq!(decode(&encode(text)), Ok(text.to_string()));
    }
}
