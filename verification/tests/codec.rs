use msgpack_codec::fragment::Fragment;
use msgpack_codec::io::ByteWriter;
use msgpack_codec::msgpack::encode::{
    write_array_len, write_bin, write_bool, write_i64, write_map_len, write_nil, write_str,
    write_u64,
};
use msgpack_codec::msgpack::ext::{read_ext, read_timestamp, write_ext, write_timestamp, Timestamp};
use msgpack_codec::msgpack::serializer::{Error as SerError, Serializer, Value};
use msgpack_codec::msgpack::validator::{Error, Validator};
use msgpack_codec::io::Reader;

fn validate_bytes(b: &[u8]) -> Result<(), Error> {
    let mut v = Validator::new(b);
    v.validate()
}

fn encode_value(v: &Value) -> Vec<u8> {
    let mut se = Serializer::new(ByteWriter::new());
    se.serialize_value(v).unwrap();
    se.into_inner().into_vec()
}

#[test]
fn minimal_width_integers() {
    let mut w = ByteWriter::new();
    write_u64(&mut w, 127).unwrap();
    assert_eq!(w.as_slice(), &[0x7f]);

    let mut w = ByteWriter::new();
    write_u64(&mut w, 128).unwrap();
    assert_eq!(w.as_slice(), &[0xcc, 0x80]);

    let mut w = ByteWriter::new();
    write_i64(&mut w, -1).unwrap();
    assert_eq!(w.as_slice(), &[0xff]);

    let mut w = ByteWriter::new();
    write_i64(&mut w, -32).unwrap();
    assert_eq!(w.as_slice(), &[0xe0]);

    let mut w = ByteWriter::new();
    write_i64(&mut w, -33).unwrap();
    assert_eq!(w.as_slice(), &[0xd0, 0xdf]);

    let mut w = ByteWriter::new();
    write_u64(&mut w, 0x1_0000).unwrap();
    assert_eq!(w.as_slice(), &[0xce, 0x00, 0x01, 0x00, 0x00]);

    let mut w = ByteWriter::new();
    write_u64(&mut w, u64::MAX).unwrap();
    assert_eq!(
        w.as_slice(),
        &[0xcf, 0xff, 0xff, 0xff, 0xff, 0xff, 0xff, 0xff, 0xff]
    );

    let mut w = ByteWriter::new();
    write_i64(&mut w, i64::MIN).unwrap();
    assert_eq!(
        w.as_slice(),
        &[0xd3, 0x80, 0x00, 0x00, 0x00, 0x00, 0x00, 0x00, 0x00]
    );
}

#[test]
fn scalar_markers() {
    let mut w = ByteWriter::new();
    write_nil(&mut w).unwrap();
    write_bool(&mut w, true).unwrap();
    write_bool(&mut w, false).unwrap();
    assert_eq!(w.as_slice(), &[0xc0, 0xc3, 0xc2]);
}

#[test]
fn string_and_binary_headers() {
    let mut w = ByteWriter::new();
    write_str(&mut w, "abc").unwrap();
    assert_eq!(w.as_slice(), &[0xa3, b'a', b'b', b'c']);

    let long = "x".repeat(32);
    let mut w = ByteWriter::new();
    write_str(&mut w, &long).unwrap();
    assert_eq!(w.as_slice()[0], 0xd9);
    assert_eq!(w.as_slice()[1], 32);

    let mut w = ByteWriter::new();
    write_bin(&mut w, &[1, 2, 3]).unwrap();
    assert_eq!(w.as_slice(), &[0xc4, 3, 1, 2, 3]);
}

#[test]
fn validate_accepts_encoded_values() {
    let pairs = vec![
        (Value::Str(String::from("héllo")), ()),
        (Value::Signed(-77), ()),
        (Value::Unsigned(4096), ()),
        (Value::F64Bits(2.5f64.to_bits()), ()),
        (Value::F32Bits(1.5f32.to_bits()), ()),
        (Value::Bin(vec![0xc1, 0xc1, 0xc1]), ()),
        (Value::Nil, ()),
        (Value::Bool(true), ()),
        (
            Value::Array(vec![
                Value::Unsigned(1),
                Value::Str(String::from("two")),
                Value::Array(vec![Value::Nil]),
            ]),
            (),
        ),
        (
            Value::Dict(vec![
                (Value::Str(String::from("k")), Value::Unsigned(1)),
                (Value::Signed(-4), Value::Bool(false)),
            ]),
            (),
        ),
        (Value::Ext(7, vec![1, 2, 3, 4, 5]), ()),
    ];
    for (v, _) in pairs {
        let bytes = encode_value(&v);
        assert_eq!(validate_bytes(&bytes), Ok(()));
    }
}

#[test]
fn validate_rejects_truncation_and_garbage() {
    let bytes = encode_value(&Value::Array(vec![
        Value::Unsigned(300),
        Value::Str(String::from("abcdef")),
    ]));
    for cut in 1..bytes.len() {
        assert!(validate_bytes(&bytes[..cut]).is_err());
    }
    let mut appended = bytes.clone();
    appended.push(0x00);
    assert_eq!(validate_bytes(&appended), Err(Error::InvalidValue));
}

#[test]
fn trailing_data_rejected() {
    let one = encode_value(&Value::Unsigned(1));
    let two = encode_value(&Value::Str(String::from("b")));
    assert_eq!(validate_bytes(&one), Ok(()));
    assert_eq!(validate_bytes(&two), Ok(()));
    let mut joined = one.clone();
    joined.extend_from_slice(&two);
    assert_eq!(validate_bytes(&joined), Err(Error::InvalidValue));
}

#[test]
fn validate_rejects_reserved_and_bad_utf8() {
    assert!(matches!(
        validate_bytes(&[0xc1]),
        Err(Error::InvalidType(_))
    ));
    assert_eq!(validate_bytes(&[0xa2, 0xff, 0xfe]), Err(Error::InvalidStr));
    assert_eq!(validate_bytes(&[]), Err(Error::UnexpectedEof));
    assert_eq!(validate_bytes(&[0xcd, 0x01]), Err(Error::UnexpectedEof));
}

#[test]
fn validate_recursion_ceiling() {
    // 254 nested arrays: the innermost is empty; accepted.
    let mut ok = vec![0x91u8; 253];
    ok.push(0x90);
    assert_eq!(validate_bytes(&ok), Ok(()));
    // one level more fails with the recursion limit.
    let mut deep = vec![0x91u8; 254];
    deep.push(0x90);
    assert_eq!(validate_bytes(&deep), Err(Error::RecursionLimitReached));
}

#[test]
fn encode_recursion_ceiling() {
    // 255 nested arrays encode; the 256th level is refused.
    let mut v = Value::Array(vec![]);
    for _ in 0..254 {
        v = Value::Array(vec![v]);
    }
    let mut se = Serializer::new(ByteWriter::new());
    assert!(se.serialize_value(&v).is_ok());

    let deeper = Value::Array(vec![v]);
    let mut se = Serializer::new(ByteWriter::new());
    match se.serialize_value(&deeper) {
        Err(SerError::Custom(m)) => assert_eq!(m, "recursion limit reached"),
        other => panic!("expected the recursion-limit error, got {:?}", other),
    }
}

#[test]
fn ext_round_trip() {
    let lens: &[usize] = &[0, 1, 2, 4, 5, 8, 16, 17, 300, 70000];
    for (i, &len) in lens.iter().enumerate() {
        let payload: Vec<u8> = (0..len).map(|j| (j % 251) as u8).collect();
        let tag = if i % 2 == 0 { 9 } else { -9 };
        let mut w = ByteWriter::new();
        write_ext(&mut w, &payload, tag).unwrap();
        let bytes = w.into_vec();
        let (rtag, rpayload) = read_ext(&bytes).unwrap();
        assert_eq!(rtag, tag);
        assert_eq!(rpayload, &payload[..]);
        assert_eq!(validate_bytes(&bytes), Ok(()));
    }
}

#[test]
fn ext_header_widths() {
    let mut w = ByteWriter::new();
    write_ext(&mut w, &[0xaa], 5).unwrap();
    assert_eq!(w.as_slice(), &[0xd4, 5, 0xaa]);

    let mut w = ByteWriter::new();
    write_ext(&mut w, &[1, 2, 3], -1).unwrap();
    assert_eq!(w.as_slice()[0], 0xc7);
    assert_eq!(w.as_slice()[1], 3);
    assert_eq!(w.as_slice()[2], 0xff);
}

#[test]
fn timestamp_round_trip() {
    let seconds: &[i64] = &[0, 1, (1 << 33) - 1, 1 << 33, 1 << 40, -5];
    let nanos: &[u32] = &[0, 999_999_999];
    for &s in seconds {
        for &ns in nanos {
            let mut w = ByteWriter::new();
            write_timestamp(&mut w, Timestamp { seconds: s, nanoseconds: ns }).unwrap();
            let payload = w.into_vec();
            if s >= 0 && s <= u32::MAX as i64 && ns == 0 {
                assert_eq!(payload.len(), 4);
            } else if s >= 0 && s < (1 << 34) {
                assert_eq!(payload.len(), 8);
            } else {
                assert_eq!(payload.len(), 12);
            }
            let mut r = Reader::new(&payload);
            let ts = read_timestamp(&mut r, payload.len() as u32).unwrap();
            assert_eq!(ts, Timestamp { seconds: s, nanoseconds: ns });
        }
    }
}

#[test]
fn timestamp_bad_lengths_rejected() {
    let payload = [0u8; 5];
    let mut r = Reader::new(&payload);
    assert!(read_timestamp(&mut r, 5).is_err());
    // an ext value with tag -1 and a payload the timestamp codec refuses
    let mut w = ByteWriter::new();
    write_ext(&mut w, &[0, 0, 0, 0, 0], -1).unwrap();
    let bytes = w.into_vec();
    assert_eq!(validate_bytes(&bytes), Err(Error::InvalidValue));
}

#[test]
fn timestamp_ext_validates() {
    let mut w = ByteWriter::new();
    write_timestamp(
        &mut w,
        Timestamp { seconds: 1_700_000_000, nanoseconds: 123 },
    )
    .unwrap();
    let payload = w.into_vec();
    let mut w = ByteWriter::new();
    write_ext(&mut w, &payload, -1).unwrap();
    assert_eq!(validate_bytes(&w.into_vec()), Ok(()));
}

#[test]
fn fragment_admission() {
    let good = encode_value(&Value::Array(vec![Value::Unsigned(5)]));
    let f = Fragment::new(good.clone()).unwrap();
    assert_eq!(f.len(), good.len());
    assert_eq!(f.as_slice(), &good[..]);

    assert!(Fragment::new(vec![0xc1]).is_err());
    let mut trailing = good.clone();
    trailing.push(0xc0);
    assert!(Fragment::new(trailing).is_err());
}

#[test]
fn fragment_splice_matches_direct_encoding() {
    let inner = Value::Dict(vec![(
        Value::Str(String::from("n")),
        Value::Signed(-7),
    )]);
    let inner_bytes = encode_value(&inner);
    let direct = encode_value(&Value::Array(vec![inner]));
    let f = Fragment::new(inner_bytes).unwrap();
    let spliced = encode_value(&Value::Array(vec![Value::Fragment(f)]));
    assert_eq!(spliced, direct);
    assert_eq!(validate_bytes(&spliced), Ok(()));
}

#[test]
fn compound_api_emits_headers() {
    let mut se = Serializer::new(ByteWriter::new());
    let c = se.serialize_seq(2).unwrap();
    se.serialize_u64(1).unwrap();
    se.serialize_str("a").unwrap();
    c.end(&mut se);
    let bytes = se.into_inner().into_vec();
    assert_eq!(bytes, vec![0x92, 0x01, 0xa1, b'a']);
    assert_eq!(validate_bytes(&bytes), Ok(()));

    let mut se = Serializer::new(ByteWriter::new());
    let c = se.serialize_map(1).unwrap();
    se.serialize_str("k").unwrap();
    se.serialize_bool(true).unwrap();
    c.end(&mut se);
    let bytes = se.into_inner().into_vec();
    assert_eq!(bytes, vec![0x81, 0xa1, b'k', 0xc3]);
    assert_eq!(validate_bytes(&bytes), Ok(()));
}

#[test]
fn float_width_is_faithful() {
    let mut se = Serializer::new(ByteWriter::new());
    se.serialize_f32_bits(1.0f32.to_bits()).unwrap();
    let bytes = se.into_inner().into_vec();
    assert_eq!(bytes[0], 0xca);
    assert_eq!(bytes.len(), 5);

    let mut se = Serializer::new(ByteWriter::new());
    se.serialize_f64_bits(1.0f64.to_bits()).unwrap();
    let bytes = se.into_inner().into_vec();
    assert_eq!(bytes[0], 0xcb);
    assert_eq!(bytes.len(), 9);
}

#[test]
fn array_and_map_header_widths() {
    let mut w = ByteWriter::new();
    write_array_len(&mut w, 16).unwrap();
    assert_eq!(w.as_slice(), &[0xdc, 0x00, 0x10]);

    let mut w = ByteWriter::new();
    write_map_len(&mut w, 0x1_0000).unwrap();
    assert_eq!(w.as_slice(), &[0xdf, 0x00, 0x01, 0x00, 0x00]);
}
