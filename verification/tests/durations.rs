use cdrs::column::{ColType, ColTypeOption, ColTypeOptionValue};
use cdrs::duration::{decode_duration, from_zigzag, read_unsigned_vint, read_vint, Duration};
use cdrs::error::{Context, Error, NativeKind};
use cdrs::list::List;
use cdrs::native::read_cell;
use cdrs::wire::CBytes;

#[test]
fn unsigned_vint_of_one_byte() {
    assert_eq!(read_unsigned_vint(&[0x00], 0), Ok((0, 1)));
    assert_eq!(read_unsigned_vint(&[0x7f], 0), Ok((127, 1)));
    assert_eq!(read_unsigned_vint(&[9, 0x05], 1), Ok((5, 2)));
}

#[test]
fn unsigned_vint_of_several_bytes() {
    assert_eq!(read_unsigned_vint(&[0x80, 0x80], 0), Ok((128, 2)));
    assert_eq!(read_unsigned_vint(&[0xBF, 0xFF], 0), Ok((0x3fff, 2)));
    assert_eq!(read_unsigned_vint(&[0xC3, 0xE8, 0x00], 0), Ok((256_000, 3)));
    assert_eq!(read_unsigned_vint(&[0xF1, 0, 0, 0, 0], 0), Ok((1 << 32, 5)));
    assert_eq!(
        read_unsigned_vint(&[0xFE, 1, 2, 3, 4, 5, 6, 7], 0),
        Ok((0x01020304050607, 8))
    );
    assert_eq!(read_unsigned_vint(&[0xFF; 9], 0), Ok((u64::MAX, 9)));
}

#[test]
fn truncated_vint_is_refused() {
    assert_eq!(read_unsigned_vint(&[], 0), Err(Error::Decode(Context::Truncated)));
    assert_eq!(read_unsigned_vint(&[0xC3, 0xE8], 0), Err(Error::Decode(Context::Truncated)));
    assert_eq!(read_vint(&[0xFF; 8], 0), Err(Error::Decode(Context::Truncated)));
}

#[test]
fn zigzag_alternates_signs() {
    assert_eq!(from_zigzag(0), 0);
    assert_eq!(from_zigzag(1), -1);
    assert_eq!(from_zigzag(2), 1);
    assert_eq!(from_zigzag(3), -2);
    assert_eq!(from_zigzag(256_000), 128_000);
    assert_eq!(from_zigzag(u64::MAX), i64::MIN);
    assert_eq!(from_zigzag(u64::MAX - 1), i64::MAX);
}

#[test]
fn signed_vint() {
    assert_eq!(read_vint(&[0x01], 0), Ok((-1, 1)));
    assert_eq!(read_vint(&[0xC3, 0xE8, 0x00], 0), Ok((128_000, 3)));
    assert_eq!(read_vint(&[0xFF; 9], 0), Ok((i64::MIN, 9)));
}

#[test]
fn duration_is_months_days_nanoseconds() {
    assert_eq!(
        decode_duration(&[0x02, 0x04, 0x06]),
        Ok(Duration { months: 1, days: 2, nanoseconds: 3 })
    );
    assert_eq!(
        decode_duration(&[0x01, 0x00, 0xC3, 0xE8, 0x00]),
        Ok(Duration { months: -1, days: 0, nanoseconds: 128_000 })
    );
    let mut widest = vec![0xF0, 0xFF, 0xFF, 0xFF, 0xFF];
    widest.extend([0xF0, 0xFF, 0xFF, 0xFF, 0xFE]);
    widest.extend([0xFF; 9]);
    assert_eq!(
        decode_duration(&widest),
        Ok(Duration { months: i32::MIN, days: i32::MAX, nanoseconds: i64::MIN })
    );
}

#[test]
fn duration_that_is_malformed_is_refused() {
    assert_eq!(decode_duration(&[0x02, 0x04]), Err(Error::Decode(Context::Truncated)));
    assert_eq!(decode_duration(&[]), Err(Error::Decode(Context::Truncated)));
    assert_eq!(decode_duration(&[0x02, 0x04, 0x06, 0x00]), Err(Error::Decode(Context::Trailing)));
    assert_eq!(
        decode_duration(&[0xF1, 0, 0, 0, 0, 0x00, 0x00]),
        Err(Error::Decode(Context::Width))
    );
    assert_eq!(
        decode_duration(&[0x00, 0xF1, 0, 0, 0, 0, 0x00]),
        Err(Error::Decode(Context::Width))
    );
}

#[test]
fn duration_comes_from_a_custom_column() {
    let custom = ColTypeOption {
        id: ColType::Custom,
        value: Some(ColTypeOptionValue::CString("DurationType".to_string())),
    };
    assert_eq!(
        read_cell::<Duration>(&custom, &CBytes::new(vec![0x02, 0x04, 0x06])),
        Ok(Some(Duration { months: 1, days: 2, nanoseconds: 3 }))
    );
    assert_eq!(read_cell::<Duration>(&custom, &CBytes::null()), Ok(None));
    assert_eq!(
        read_cell::<Duration>(&ColTypeOption::plain(ColType::Bigint), &CBytes::null()),
        Err(Error::InvalidProjection { expected: NativeKind::Duration, actual: ColType::Bigint })
    );
    let list = List::new(
        vec![CBytes::new(vec![0x00, 0x00, 0x00]), CBytes::null()],
        ColTypeOption {
            id: ColType::List,
            value: Some(ColTypeOptionValue::CList(Box::new(custom))),
        },
    );
    assert_eq!(
        list.as_rust::<Duration>(),
        Ok(vec![Some(Duration { months: 0, days: 0, nanoseconds: 0 }), None])
    );
}
