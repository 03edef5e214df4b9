//! Round trips and error behavior of the variant codec.

use ducky::decode::decode_variant;
use ducky::encode::{encode_variant, EncodeError};
use ducky::variant::{Dictionary, FloatBits, Rect2, VariantType, VariantValue, Vector2, Vector3};
use ducky::wire::DecodeError;

fn round_trip(v: VariantValue) -> VariantValue {
    let bytes = encode_variant(&v).expect("encodable");
    let decoded = decode_variant(&bytes).expect("decodable");
    // Re-encoding the decoded value gives the identical wire bytes.
    let bytes2 = encode_variant(&decoded).expect("encodable");
    assert_eq!(bytes, bytes2);
    decoded
}

#[test]
fn nil_round_trip() {
    let d = round_trip(VariantValue::Nil);
    assert_eq!(d.get_type(), VariantType::Nil);
}

#[test]
fn bool_round_trip() {
    let d = round_trip(VariantValue::Bool(true));
    assert_eq!(d.as_bool(), Some(true));
    let d = round_trip(VariantValue::Bool(false));
    assert_eq!(d.as_bool(), Some(false));
}

#[test]
fn int_round_trip() {
    for v in [0i64, 1, -1, i64::MAX, i64::MIN, 42424242] {
        let d = round_trip(VariantValue::Int(v));
        assert_eq!(d.as_int(), Some(v));
    }
}

#[test]
fn float_round_trip() {
    let bits = 4614256656552045848u64; // a binary64 pattern
    let d = round_trip(VariantValue::Float(FloatBits::Wide(bits)));
    match d {
        VariantValue::Float(FloatBits::Wide(b)) => assert_eq!(b, bits),
        _ => panic!("wrong shape"),
    }
    let nbits = 0x40490fdbu32; // a binary32 pattern
    let d = round_trip(VariantValue::Float(FloatBits::Narrow(nbits)));
    match d {
        VariantValue::Float(FloatBits::Narrow(b)) => assert_eq!(b, nbits),
        _ => panic!("wrong shape"),
    }
}

#[test]
fn string_round_trip() {
    for s in ["", "a", "ab", "abc", "abcd", "abcde", "snowman \u{2603}"] {
        let d = round_trip(VariantValue::String(s.to_string()));
        assert_eq!(d.as_str().map(|x| x.as_str()), Some(s));
    }
}

#[test]
fn string_padding_lengths() {
    // The encoded string is a 4-byte header, a 4-byte length word, and the
    // bytes padded to a multiple of four.
    for (s, body) in [("", 4), ("a", 8), ("ab", 8), ("abc", 8), ("abcd", 8), ("abcde", 12)] {
        let bytes = encode_variant(&VariantValue::String(s.to_string())).unwrap();
        assert_eq!(bytes.len(), 4 + body);
    }
}

#[test]
fn vector_round_trip() {
    let v2 = Vector2 { x: 0x3f800000, y: 0x40000000 };
    let d = round_trip(VariantValue::Vector2(v2));
    match d {
        VariantValue::Vector2(w) => assert_eq!(w, v2),
        _ => panic!("wrong shape"),
    }
    let v3 = Vector3 { x: 1, y: 2, z: 3 };
    let d = round_trip(VariantValue::Vector3(v3));
    assert_eq!(d.as_vector3(), Some(v3));
    let r = Rect2 { end: v2, position: Vector2 { x: 7, y: 8 }, size: Vector2 { x: 9, y: 10 } };
    let d = round_trip(VariantValue::Rect2(r));
    match d {
        VariantValue::Rect2(w) => assert_eq!(w, r),
        _ => panic!("wrong shape"),
    }
}

#[test]
fn dictionary_round_trip() {
    let mut d = Dictionary::new();
    d.insert("type".to_string(), VariantValue::String("message".to_string()));
    d.insert("count".to_string(), VariantValue::Int(3));
    let mut inner: Vec<VariantValue> = Vec::new();
    inner.push(VariantValue::Bool(true));
    inner.push(VariantValue::Nil);
    d.insert("items".to_string(), VariantValue::Array(inner));
    let back = round_trip(VariantValue::Dictionary(d));
    let dict = back.as_dictionary().expect("dictionary");
    assert_eq!(dict.len(), 3);
    assert_eq!(
        dict.get("type").and_then(|v| v.as_str()).map(|s| s.as_str()),
        Some("message")
    );
    assert_eq!(dict.get("count").and_then(|v| v.as_int()), Some(3));
    let items = dict.get("items").and_then(|v| v.as_array()).expect("array");
    assert_eq!(items.len(), 2);
    assert_eq!(items[0].as_bool(), Some(true));
    assert_eq!(items[1].get_type(), VariantType::Nil);
}

#[test]
fn insert_replaces_existing_key() {
    let mut d = Dictionary::new();
    d.insert("k".to_string(), VariantValue::Int(1));
    d.insert("k".to_string(), VariantValue::Int(2));
    assert_eq!(d.len(), 1);
    assert_eq!(d.get("k").and_then(|v| v.as_int()), Some(2));
}

#[test]
fn unknown_tag_rejected() {
    // Tag 9 is reserved and unimplemented.
    let bytes = vec![9u8, 0, 0, 0];
    assert!(matches!(decode_variant(&bytes), Err(DecodeError::UnknownTag)));
}

#[test]
fn truncated_input_rejected() {
    // A wide Int header with no payload.
    let bytes = vec![2u8, 0, 1, 0];
    assert!(matches!(decode_variant(&bytes), Err(DecodeError::TruncatedInput)));
    assert!(matches!(decode_variant(&vec![]), Err(DecodeError::TruncatedInput)));
}

#[test]
fn bad_utf8_rejected() {
    // A string of four 0xff bytes.
    let bytes = vec![4u8, 0, 0, 0, 4, 0, 0, 0, 0xff, 0xff, 0xff, 0xff];
    assert!(matches!(decode_variant(&bytes), Err(DecodeError::BadUtf8)));
}

#[test]
fn narrow_int_widens() {
    // Tag 2, flags 0: a 32-bit payload, sign extended.
    let bytes = vec![2u8, 0, 0, 0, 0xff, 0xff, 0xff, 0xff];
    let d = decode_variant(&bytes).unwrap();
    assert_eq!(d.as_int(), Some(-1));
}

#[test]
fn duplicate_keys_refused_by_encoder() {
    // A hand-built dictionary with a repeated key cannot travel.
    let d = Dictionary {
        entries: vec![
            ("k".to_string(), VariantValue::Int(1)),
            ("k".to_string(), VariantValue::Int(2)),
        ],
    };
    assert!(matches!(
        encode_variant(&VariantValue::Dictionary(d)),
        Err(EncodeError::TooLong)
    ));
}

#[test]
fn non_string_dictionary_key_skipped() {
    // count=1, key=Int(5), value=Int(6): the entry is discarded, decoding
    // goes on, and the dictionary comes back empty.
    let mut bytes = vec![18u8, 0, 0, 0, 1, 0, 0, 0];
    bytes.extend_from_slice(&[2u8, 0, 1, 0]);
    bytes.extend_from_slice(&5u64.to_le_bytes());
    bytes.extend_from_slice(&[2u8, 0, 1, 0]);
    bytes.extend_from_slice(&6u64.to_le_bytes());
    let d = decode_variant(&bytes).unwrap();
    let dict = d.as_dictionary().expect("dictionary");
    assert_eq!(dict.len(), 0);
}
