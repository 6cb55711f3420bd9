use cdrs::error::{Context, Error};
use cdrs::value::{
    decode_ascii, decode_bigint, decode_blob, decode_boolean, decode_counter, decode_custom,
    decode_date, decode_decimal, decode_double_bits, decode_float_bits, decode_inet,
    decode_int, decode_list, decode_map, decode_set, decode_smallint, decode_text,
    decode_time, decode_timestamp, decode_timeuuid, decode_tinyint, decode_tuple, decode_udt,
    decode_uuid, decode_varchar, decode_varint, decode_wide_varint, pow256_of, Decimal, Inet,
    Varint,
};
use cdrs::wire::CBytes;

const WIDTH: Error = Error::Decode(Context::Width);

#[test]
fn int_is_four_bytes_big_endian() {
    assert_eq!(decode_int(&[0x00, 0x00, 0x00, 0x2A]), Ok(42));
    assert_eq!(decode_int(&[0xff, 0xff, 0xff, 0xff]), Ok(-1));
    assert_eq!(decode_int(&[0x80, 0, 0, 0]), Ok(i32::MIN));
    assert_eq!(decode_int(&[0, 0, 1]), Err(WIDTH));
    assert_eq!(decode_int(&[0, 0, 0, 0, 1]), Err(WIDTH));
}

#[test]
fn tinyint_and_smallint() {
    assert_eq!(decode_tinyint(&[0x7f]), Ok(127));
    assert_eq!(decode_tinyint(&[0x80]), Ok(-128));
    assert_eq!(decode_tinyint(&[]), Err(WIDTH));
    assert_eq!(decode_smallint(&[0x01, 0x00]), Ok(256));
    assert_eq!(decode_smallint(&[0xff, 0xfe]), Ok(-2));
    assert_eq!(decode_smallint(&[1]), Err(WIDTH));
}

#[test]
fn bigint_and_its_kin() {
    let bytes = [0, 0, 0, 0, 0, 0, 0x01, 0x02];
    assert_eq!(decode_bigint(&bytes), Ok(258));
    assert_eq!(decode_counter(&bytes), Ok(258));
    assert_eq!(decode_timestamp(&bytes), Ok(258));
    assert_eq!(decode_time(&bytes), Ok(258));
    assert_eq!(decode_bigint(&[0xff; 8]), Ok(-1));
    assert_eq!(decode_bigint(&[0xff; 7]), Err(WIDTH));
    assert_eq!(decode_timestamp(&[0; 9]), Err(WIDTH));
}

#[test]
fn date_is_unsigned() {
    assert_eq!(decode_date(&[0x80, 0, 0, 0]), Ok(0x8000_0000));
    assert_eq!(decode_date(&[0xff, 0xff, 0xff, 0xff]), Ok(u32::MAX));
    assert_eq!(decode_date(&[0, 0]), Err(WIDTH));
}

#[test]
fn float_and_double_bits() {
    assert_eq!(decode_float_bits(&1.5f32.to_be_bytes()).map(f32::from_bits), Ok(1.5));
    assert_eq!(decode_double_bits(&(-2.25f64).to_be_bytes()).map(f64::from_bits), Ok(-2.25));
    assert_eq!(decode_float_bits(&[0; 8]), Err(WIDTH));
    assert_eq!(decode_double_bits(&[0; 4]), Err(WIDTH));
}

#[test]
fn boolean_is_one_byte() {
    assert_eq!(decode_boolean(&[0]), Ok(false));
    assert_eq!(decode_boolean(&[1]), Ok(true));
    assert_eq!(decode_boolean(&[0xff]), Ok(true));
    assert_eq!(decode_boolean(&[]), Err(WIDTH));
    assert_eq!(decode_boolean(&[0, 1]), Err(WIDTH));
}

#[test]
fn blob_is_identity() {
    assert_eq!(decode_blob(&[1, 2, 3]), Ok(vec![1, 2, 3]));
    assert_eq!(decode_blob(&[]), Ok(vec![]));
}

#[test]
fn varchar_must_be_utf8() {
    assert_eq!(decode_varchar("naïve".as_bytes()), Ok("naïve".to_string()));
    assert_eq!(decode_text(b"abc"), Ok("abc".to_string()));
    assert_eq!(decode_varchar(&[0xc3, 0x28]), Err(Error::Decode(Context::Utf8)));
}

#[test]
fn ascii_and_custom_never_fail() {
    assert_eq!(decode_ascii(b"abc"), Ok("abc".to_string()));
    assert_eq!(decode_custom("org.x.Y".as_bytes()), Ok("org.x.Y".to_string()));
    assert_eq!(decode_ascii(&[b'a', 0xff, b'b']), Ok("a\u{fffd}b".to_string()));
    assert_eq!(decode_custom(&[0xff]), Ok("\u{fffd}".to_string()));
}

#[test]
fn uuid_is_sixteen_bytes() {
    let bytes = [
        0xa1, 0xa2, 0xa3, 0xa4, 0xb1, 0xb2, 0xc1, 0xc2, 0xd1, 0xd2, 0xd3, 0xd4, 0xd5, 0xd6,
        0xd7, 0xd8,
    ];
    let expected = uuid::Uuid::from_bytes(bytes);
    assert_eq!(decode_uuid(&bytes), Ok(expected));
    assert_eq!(decode_timeuuid(&bytes), Ok(expected));
    assert_eq!(
        decode_uuid(&bytes).unwrap().hyphenated().to_string(),
        "a1a2a3a4-b1b2-c1c2-d1d2-d3d4d5d6d7d8"
    );
    assert_eq!(decode_uuid(&bytes[0..15]), Err(WIDTH));
    assert_eq!(decode_timeuuid(&[]), Err(WIDTH));
}

#[test]
fn varint_is_minimal_twos_complement() {
    assert_eq!(decode_varint(&[0x00]), Ok(0));
    assert_eq!(decode_varint(&[0x7f]), Ok(127));
    assert_eq!(decode_varint(&[0x00, 0x80]), Ok(128));
    assert_eq!(decode_varint(&[0xff]), Ok(-1));
    assert_eq!(decode_varint(&[0x80]), Ok(-128));
    assert_eq!(decode_varint(&[0xff, 0x7f]), Ok(-129));
    assert_eq!(decode_varint(&[0x7f, 0xff, 0xff, 0xff, 0xff, 0xff, 0xff, 0xff]), Ok(i64::MAX));
    assert_eq!(decode_varint(&[0x80, 0, 0, 0, 0, 0, 0, 0]), Ok(i64::MIN));
    assert_eq!(decode_varint(&[]), Err(WIDTH));
    assert_eq!(decode_varint(&[0; 9]), Err(WIDTH));
}

#[test]
fn powers_of_256() {
    assert_eq!(pow256_of(0), 1);
    assert_eq!(pow256_of(1), 256);
    assert_eq!(pow256_of(8), 1u128 << 64);
}

#[test]
fn decimal_is_scale_then_varint() {
    let d = decode_decimal(&[0, 0, 0, 2, 0x30, 0x39]).unwrap();
    assert_eq!(d, Decimal { scale: 2, unscaled: Varint { bytes: vec![0x30, 0x39] } });
    assert_eq!(d.unscaled.to_i64(), Some(12345));
    let d = decode_decimal(&[0xff, 0xff, 0xff, 0xff, 0xff]).unwrap();
    assert_eq!(d.scale, -1);
    assert_eq!(d.unscaled.to_i64(), Some(-1));
    let wide = decode_decimal(&[0, 0, 0, 0, 1, 0, 0, 0, 0, 0, 0, 0, 0]).unwrap();
    assert_eq!(wide.unscaled.to_i64(), None);
    assert_eq!(decode_decimal(&[0, 0, 0]), Err(Error::Decode(Context::Truncated)));
    assert_eq!(decode_decimal(&[0, 0, 0, 1]), Err(WIDTH));
}

#[test]
fn inet_is_four_or_sixteen_bytes() {
    assert_eq!(decode_inet(&[127, 0, 0, 1]), Ok(Inet::V4(0x7f00_0001)));
    let mut v6 = [0u8; 16];
    v6[0] = 0x20;
    v6[1] = 0x01;
    v6[15] = 1;
    assert_eq!(decode_inet(&v6), Ok(Inet::V6(0x2001_0000_0000_0000_0000_0000_0000_0001)));
    assert_eq!(decode_inet(&[0xff; 16]), Ok(Inet::V6(u128::MAX)));
    assert_eq!(decode_inet(&[1, 2, 3]), Err(WIDTH));
}

#[test]
fn list_is_count_then_values() {
    let bytes = [0, 0, 0, 2, 0, 0, 0, 1, 5, 0, 0, 0, 0];
    let expected = vec![CBytes::new(vec![5]), CBytes::new(vec![])];
    assert_eq!(decode_list(&bytes), Ok(expected.clone()));
    assert_eq!(decode_set(&bytes), Ok(expected.clone()));
    assert_eq!(decode_tuple(&bytes), Ok(expected));
    assert_eq!(decode_list(&[0, 0, 0, 0]), Ok(vec![]));
}

#[test]
fn list_with_wrong_count_is_refused() {
    assert_eq!(
        decode_list(&[0, 0, 0, 2, 0, 0, 0, 1, 5]),
        Err(Error::Decode(Context::Truncated))
    );
    assert_eq!(
        decode_list(&[0, 0, 0, 0, 0, 0, 0, 1, 5]),
        Err(Error::Decode(Context::Trailing))
    );
    assert_eq!(decode_list(&[0xff, 0xff, 0xff, 0xff]), Err(Error::Decode(Context::Length)));
    assert_eq!(decode_list(&[0, 0]), Err(Error::Decode(Context::Truncated)));
}

#[test]
fn map_is_count_then_pairs() {
    let bytes = [0, 0, 0, 1, 0, 0, 0, 1, b'k', 0, 0, 0, 1, b'v'];
    assert_eq!(decode_map(&bytes), Ok(vec![CBytes::new(vec![b'k']), CBytes::new(vec![b'v'])]));
    assert_eq!(
        decode_map(&[0, 0, 0, 1, 0, 0, 0, 1, b'k']),
        Err(Error::Decode(Context::Truncated))
    );
}

#[test]
fn udt_missing_trailing_fields_are_null() {
    let bytes = [0, 0, 0, 1, 9];
    assert_eq!(
        decode_udt(&bytes, 3),
        Ok(vec![CBytes::new(vec![9]), CBytes::null(), CBytes::null()])
    );
    assert_eq!(decode_udt(&bytes, 1), Ok(vec![CBytes::new(vec![9])]));
    assert_eq!(decode_udt(&[], 2), Ok(vec![CBytes::null(), CBytes::null()]));
    assert_eq!(decode_udt(&[], 0), Ok(vec![]));
}

#[test]
fn udt_with_more_than_its_fields_is_refused() {
    assert_eq!(decode_udt(&[0, 0, 0, 1, 9], 0), Err(Error::Decode(Context::Trailing)));
    assert_eq!(
        decode_udt(&[0, 0, 0, 0, 0, 0, 0, 0], 1),
        Err(Error::Decode(Context::Trailing))
    );
    assert_eq!(decode_udt(&[0, 0, 0, 5, 1], 1), Err(Error::Decode(Context::Truncated)));
}

#[test]
fn wide_varint_keeps_every_byte() {
    let nine = [1u8, 0, 0, 0, 0, 0, 0, 0, 0];
    let v = decode_wide_varint(&nine).unwrap();
    assert_eq!(v.bytes, nine.to_vec());
    assert_eq!(v.to_i64(), None);
    assert_eq!(decode_wide_varint(&[0xff, 0x7f]).unwrap().to_i64(), Some(-129));
    assert_eq!(decode_wide_varint(&[]), Err(WIDTH));
    assert_eq!(Varint { bytes: vec![] }.to_i64(), Some(0));
}
