use rust_toolchain_manifest::hash_value::{HashValue, ParseError};

#[test]
fn hex_round_trip_concrete() {
    let bytes = [0xdeu8, 0xad, 0xbe, 0xef];
    let h = HashValue::from_bytes(&bytes);
    let text = h.to_text();
    assert_eq!(text, "deadbeef");
    let parsed = HashValue::parse_hex(&text).expect("canonical text must parse");
    assert_eq!(parsed, h);
}

#[test]
fn hex_round_trip_empty() {
    let h = HashValue::from_bytes(&[]);
    assert_eq!(h.to_text(), "");
    let parsed = HashValue::parse_hex("").expect("empty text is a valid digest");
    assert_eq!(parsed, h);
}

#[test]
fn parse_hex_accepts_uppercase() {
    let lower = HashValue::parse_hex("deadbeef").unwrap();
    let upper = HashValue::parse_hex("DeadBEEF").unwrap();
    assert_eq!(lower, upper);
}

#[test]
fn parse_hex_rejects_odd_length() {
    match HashValue::parse_hex("abc") {
        Err(ParseError::NotOctetSized) => {}
        other => panic!("expected NotOctetSized, got {:?}", other),
    }
}

#[test]
fn parse_hex_rejects_non_hex_byte() {
    match HashValue::parse_hex("ag") {
        Err(ParseError::InvalidByte(b)) => assert_eq!(b, b'g'),
        other => panic!("expected InvalidByte, got {:?}", other),
    }
}

#[test]
fn nibble_conversions() {
    assert_eq!(HashValue::nibble_to_ascii(0), b'0');
    assert_eq!(HashValue::nibble_to_ascii(9), b'9');
    assert_eq!(HashValue::nibble_to_ascii(10), b'a');
    assert_eq!(HashValue::nibble_to_ascii(15), b'f');
    assert_eq!(HashValue::ascii_to_nibble(b'7'), Ok(7));
    assert_eq!(HashValue::ascii_to_nibble(b'f'), Ok(15));
    assert_eq!(HashValue::ascii_to_nibble(b'F'), Ok(15));
    match HashValue::ascii_to_nibble(b'g') {
        Err(ParseError::InvalidByte(b)) => assert_eq!(b, b'g'),
        other => panic!("expected InvalidByte, got {:?}", other),
    }
}

#[test]
fn to_ascii_two_digits_per_byte() {
    let h = HashValue::from_bytes(&[0x0f, 0xa0]);
    assert_eq!(h.to_ascii(), b"0fa0".to_vec());
}

#[test]
fn as_bytes_returns_raw_bytes() {
    let h = HashValue::from_bytes(&[1, 2, 3]);
    assert_eq!(h.as_bytes(), &[1, 2, 3]);
}

#[test]
fn lexicographic_order() {
    let a = HashValue::from_bytes(&[0x01]);
    let b = HashValue::from_bytes(&[0x01, 0x00]);
    let c = HashValue::from_bytes(&[0x02]);
    assert!(a.less_than(&b));
    assert!(!b.less_than(&a));
    assert!(b.less_than(&c));
    assert!(a.less_than(&c));
    assert!(!a.less_than(&a));
}
