use cdrs::consistency::{read_consistency, Consistency};
use cdrs::endian::{
    from_n_bytes, i16_of_u16, i32_of_u32, i64_of_u64, i8_of_u8, to_n_bytes, u16_of_i16,
    u32_of_i32, u64_of_i64, u8_of_i8,
};
use cdrs::error::{Context, Error};
use cdrs::primitive::{
    read_byte, read_int, read_long, read_short, read_unsigned, write_byte, write_int,
    write_long, write_short,
};
use cdrs::wire::{
    read_bytes, read_long_string, read_short_bytes, read_string, read_string_list,
    read_strings, read_values, text_from, write_bytes, write_long_string, write_short_bytes,
    write_string, write_string_list, CBytes,
};

#[test]
fn to_n_bytes_is_big_endian() {
    assert_eq!(to_n_bytes(0x0102, 2), vec![0x01, 0x02]);
    assert_eq!(to_n_bytes(1, 4), vec![0, 0, 0, 1]);
    assert_eq!(to_n_bytes(0x0102030405060708, 8), vec![1, 2, 3, 4, 5, 6, 7, 8]);
}

#[test]
fn to_n_bytes_keeps_the_low_bytes() {
    assert_eq!(to_n_bytes(0x010203, 2), vec![0x02, 0x03]);
    assert_eq!(to_n_bytes(0xffff, 0), Vec::<u8>::new());
}

#[test]
fn to_n_bytes_pads_with_zeros() {
    assert_eq!(to_n_bytes(0x0102, 10), vec![0, 0, 0, 0, 0, 0, 0, 0, 1, 2]);
}

#[test]
fn from_n_bytes_reads_big_endian() {
    assert_eq!(from_n_bytes(&[]), 0);
    assert_eq!(from_n_bytes(&[0x01, 0x02]), 0x0102);
    assert_eq!(from_n_bytes(&[0xff; 8]), u64::MAX);
}

#[test]
fn unsigned_round_trip_on_values() {
    for v in [0u64, 1, 255, 256, 65535, 0xdead_beef, u64::MAX] {
        assert_eq!(from_n_bytes(&to_n_bytes(v, 8)), v);
    }
}

#[test]
fn twos_complement_conversions() {
    assert_eq!(u8_of_i8(-1), 0xff);
    assert_eq!(i8_of_u8(0x80), i8::MIN);
    assert_eq!(u16_of_i16(-2), 0xfffe);
    assert_eq!(i16_of_u16(0xfffe), -2);
    assert_eq!(u32_of_i32(i32::MIN), 0x8000_0000);
    assert_eq!(i32_of_u32(0xffff_ffff), -1);
    assert_eq!(u64_of_i64(-1), u64::MAX);
    assert_eq!(i64_of_u64(0x8000_0000_0000_0000), i64::MIN);
    assert_eq!(i64_of_u64(42), 42);
}

#[test]
fn short_round_trip() {
    for v in [0u16, 1, 0x0102, u16::MAX] {
        let mut out = vec![9];
        write_short(&mut out, v);
        assert_eq!(out.len(), 3);
        assert_eq!(read_short(&out, 1), Ok((v, 3)));
    }
}

#[test]
fn int_round_trip() {
    for v in [0i32, 1, -1, 42, i32::MIN, i32::MAX] {
        let mut out = Vec::new();
        write_int(&mut out, v);
        assert_eq!(out.len(), 4);
        assert_eq!(read_int(&out, 0), Ok((v, 4)));
    }
}

#[test]
fn long_round_trip() {
    for v in [0i64, 1, -1, i64::MIN, i64::MAX, 1_500_000_000_000] {
        let mut out = Vec::new();
        write_long(&mut out, v);
        assert_eq!(out.len(), 8);
        assert_eq!(read_long(&out, 0), Ok((v, 8)));
    }
}

#[test]
fn byte_round_trip() {
    let mut out = Vec::new();
    write_byte(&mut out, 0xab);
    assert_eq!(out, vec![0xab]);
    assert_eq!(read_byte(&out, 0), Ok((0xab, 1)));
}

#[test]
fn int_bytes_are_exact() {
    let mut out = Vec::new();
    write_int(&mut out, -2);
    assert_eq!(out, vec![0xff, 0xff, 0xff, 0xfe]);
    let mut out = Vec::new();
    write_int(&mut out, 0x01020304);
    assert_eq!(out, vec![1, 2, 3, 4]);
}

#[test]
fn reading_past_the_end_is_truncated() {
    assert_eq!(read_short(&[1], 0), Err(Error::Decode(Context::Truncated)));
    assert_eq!(read_int(&[1, 2, 3], 0), Err(Error::Decode(Context::Truncated)));
    assert_eq!(read_long(&[0; 8], 1), Err(Error::Decode(Context::Truncated)));
    assert_eq!(read_byte(&[], 0), Err(Error::Decode(Context::Truncated)));
    assert_eq!(read_unsigned(&[1, 2], 2, 1), Err(Error::Decode(Context::Truncated)));
}

#[test]
fn string_round_trip() {
    for t in ["", "a", "CQL_VERSION", "héllo ✓"] {
        let mut out = Vec::new();
        write_string(&mut out, t);
        assert_eq!(out.len(), 2 + t.len());
        assert_eq!(read_string(&out, 0), Ok((t.to_string(), out.len())));
    }
}

#[test]
fn string_bytes_are_exact() {
    let mut out = Vec::new();
    write_string(&mut out, "3.0.0");
    assert_eq!(out, vec![0x00, 0x05, 0x33, 0x2E, 0x30, 0x2E, 0x30]);
}

#[test]
fn long_string_round_trip() {
    let t = "SELECT * FROM t";
    let mut out = Vec::new();
    write_long_string(&mut out, t);
    assert_eq!(&out[0..4], &[0, 0, 0, 0x0F]);
    assert_eq!(read_long_string(&out, 0), Ok((t.to_string(), 19)));
}

#[test]
fn long_string_of_negative_length_is_refused() {
    assert_eq!(
        read_long_string(&[0xff, 0xff, 0xff, 0xff], 0),
        Err(Error::Decode(Context::Length))
    );
}

#[test]
fn string_that_is_no_utf8_is_refused() {
    assert_eq!(read_string(&[0, 2, 0xc3, 0x28], 0), Err(Error::Decode(Context::Utf8)));
    assert_eq!(text_from(&[0xff]), Err(Error::Decode(Context::Utf8)));
}

#[test]
fn string_shorter_than_announced_is_truncated() {
    assert_eq!(read_string(&[0, 3, b'a', b'b'], 0), Err(Error::Decode(Context::Truncated)));
}

#[test]
fn text_from_reads_utf8() {
    assert_eq!(text_from("grüß".as_bytes()), Ok("grüß".to_string()));
    assert_eq!(text_from(&[]), Ok(String::new()));
}

#[test]
fn null_preservation() {
    let (null, next) = read_bytes(&[0xff, 0xff, 0xff, 0xff], 0).unwrap();
    assert!(null.is_null());
    assert_eq!(next, 4);
    let (empty, next) = read_bytes(&[0, 0, 0, 0], 0).unwrap();
    assert!(!empty.is_null());
    assert_eq!(empty.as_slice(), Some(&[][..]));
    assert_eq!(next, 4);
    assert_ne!(null, empty);
}

#[test]
fn any_negative_length_is_null() {
    let (v, next) = read_bytes(&[0x80, 0, 0, 0, 7], 0).unwrap();
    assert!(v.is_null());
    assert_eq!(next, 4);
}

#[test]
fn bytes_trichotomy_on_the_wire() {
    assert_eq!(CBytes::null().into_cbytes(), vec![0xff, 0xff, 0xff, 0xff]);
    assert_eq!(CBytes::new(vec![]).into_cbytes(), vec![0, 0, 0, 0]);
    assert_eq!(CBytes::new(vec![5, 6]).into_cbytes(), vec![0, 0, 0, 2, 5, 6]);
}

#[test]
fn bytes_round_trip() {
    for v in [CBytes::null(), CBytes::new(vec![]), CBytes::new(vec![1, 2, 3])] {
        let mut out = vec![0xaa];
        write_bytes(&mut out, &v);
        let (back, next) = read_bytes(&out, 1).unwrap();
        assert_eq!(back, v);
        assert_eq!(next, out.len());
    }
}

#[test]
fn bytes_shorter_than_announced_are_truncated() {
    assert_eq!(read_bytes(&[0, 0, 0, 2, 1], 0).err(), Some(Error::Decode(Context::Truncated)));
}

#[test]
fn cbytes_accessors() {
    let v = CBytes::new(vec![1, 2]);
    assert_eq!(v.as_plain(), vec![1, 2]);
    assert_eq!(v.duplicate(), v);
    assert_eq!(CBytes::null().as_plain(), Vec::<u8>::new());
    assert_eq!(CBytes::null().as_slice(), None);
    assert_eq!(CBytes::null().duplicate(), CBytes::null());
}

#[test]
fn short_bytes_round_trip() {
    let mut out = Vec::new();
    write_short_bytes(&mut out, &[9, 8, 7]);
    assert_eq!(out, vec![0, 3, 9, 8, 7]);
    assert_eq!(read_short_bytes(&out, 0), Ok((vec![9, 8, 7], 5)));
    assert_eq!(read_short_bytes(&[0, 0], 0), Ok((vec![], 2)));
    assert_eq!(read_short_bytes(&[0, 2, 1], 0), Err(Error::Decode(Context::Truncated)));
}

#[test]
fn string_list_round_trip() {
    let list = vec!["TOPOLOGY_CHANGE".to_string(), "".to_string(), "x".to_string()];
    let mut out = Vec::new();
    write_string_list(&mut out, &list);
    assert_eq!(&out[0..2], &[0, 3]);
    assert_eq!(read_string_list(&out, 0), Ok((list, out.len())));
}

#[test]
fn empty_string_list() {
    let mut out = Vec::new();
    write_string_list(&mut out, &Vec::new());
    assert_eq!(out, vec![0, 0]);
    assert_eq!(read_string_list(&out, 0), Ok((vec![], 2)));
}

#[test]
fn string_list_with_too_few_strings_is_truncated() {
    assert_eq!(
        read_string_list(&[0, 2, 0, 1, b'a'], 0),
        Err(Error::Decode(Context::Truncated))
    );
    assert_eq!(read_strings(&[0, 1, b'a'], 0, 0), Ok((vec![], 0)));
}

#[test]
fn values_are_read_in_order() {
    let bytes = [0, 0, 0, 1, 7, 0xff, 0xff, 0xff, 0xff, 0, 0, 0, 0];
    let (values, next) = read_values(&bytes, 0, 3).unwrap();
    assert_eq!(values, vec![CBytes::new(vec![7]), CBytes::null(), CBytes::new(vec![])]);
    assert_eq!(next, 13);
    assert_eq!(read_values(&bytes, 0, 4).err(), Some(Error::Decode(Context::Truncated)));
}

#[test]
fn consistency_codes() {
    let all = [
        (Consistency::Any, 0x00u16),
        (Consistency::One, 0x01),
        (Consistency::Two, 0x02),
        (Consistency::Three, 0x03),
        (Consistency::Quorum, 0x04),
        (Consistency::All, 0x05),
        (Consistency::LocalQuorum, 0x06),
        (Consistency::EachQuorum, 0x07),
        (Consistency::Serial, 0x08),
        (Consistency::LocalSerial, 0x09),
        (Consistency::LocalOne, 0x0A),
    ];
    for (level, code) in all {
        assert_eq!(level.as_short(), code);
        assert_eq!(Consistency::from_short(code), Ok(level));
        assert_eq!(read_consistency(&level.into_cbytes(), 0), Ok((level, 2)));
    }
    assert_eq!(Consistency::from_short(0x0B), Err(Error::Decode(Context::UnknownCode)));
    assert_eq!(Consistency::default(), Consistency::One);
}
