use rhost::base64::{decode, encode};

#[test]
fn encoding_is_standard_padded_base64() {
    assert_eq!(encode(b""), "");
    assert_eq!(encode(b"f"), "Zg==");
    assert_eq!(encode(b"fo"), "Zm8=");
    assert_eq!(encode(b"foo"), "Zm9v");
    assert_eq!(encode(b"hello\n"), "aGVsbG8K");
    assert_eq!(encode(&[0xfb, 0xff]), "+/8=");
}

#[test]
fn decoding_undoes_encoding() {
    for data in [&b""[..], b"f", b"fo", b"foo", b"foob", b"\x00\xff\x10", b"hello world"] {
        assert_eq!(decode(&encode(data)).as_deref(), Some(data));
    }
}

#[test]
fn malformed_text_does_not_decode() {
    assert_eq!(decode("not-base64"), None);
    assert_eq!(decode("Zg="), None);
    assert_eq!(decode("Zh=="), None);
    assert_eq!(decode("Z==="), None);
    assert_eq!(decode("Zm9v").as_deref(), Some(&b"foo"[..]));
}
