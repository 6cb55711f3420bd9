use cdrs::column::{CUdt, ColType, ColTypeOption, ColTypeOptionValue};
use cdrs::cql_map::CqlMap;
use cdrs::error::{Context, Error, NativeKind};
use cdrs::list::{project, List};
use cdrs::native::{DoubleBits, FloatBits, Native};
use cdrs::tuple::Tuple;
use cdrs::udt::UDT;
use cdrs::value::{decode_list, Decimal, Inet, Varint};
use cdrs::wire::CBytes;

fn all<T>(items: Result<Vec<Option<T>>, Error>) -> Result<Vec<T>, Error> {
    items.map(|v| v.into_iter().map(|item| item.expect("a null item")).collect())
}

fn plain(id: ColType) -> ColTypeOption {
    ColTypeOption::plain(id)
}

fn list_of(inner: ColTypeOption) -> ColTypeOption {
    ColTypeOption { id: ColType::List, value: Some(ColTypeOptionValue::CList(Box::new(inner))) }
}

fn set_of(inner: ColTypeOption) -> ColTypeOption {
    ColTypeOption { id: ColType::CSet, value: Some(ColTypeOptionValue::CSet(Box::new(inner))) }
}

fn map_of(key: ColTypeOption, value: ColTypeOption) -> ColTypeOption {
    ColTypeOption {
        id: ColType::CMap,
        value: Some(ColTypeOptionValue::CMap(Box::new(key), Box::new(value))),
    }
}

fn raw(items: &[&[u8]]) -> Vec<CBytes> {
    items.iter().map(|b| CBytes::new(b.to_vec())).collect()
}

fn counted(items: &[&[u8]]) -> Vec<u8> {
    let mut b = (items.len() as i32).to_be_bytes().to_vec();
    for item in items {
        b.extend((item.len() as i32).to_be_bytes());
        b.extend_from_slice(item);
    }
    b
}

#[test]
fn list_of_ints() {
    let list = List::new(raw(&[&[0, 0, 0, 1], &[0xff, 0xff, 0xff, 0xfe]]), list_of(plain(ColType::Int)));
    assert_eq!(list.len(), 2);
    assert_eq!(list.metadata(), &list_of(plain(ColType::Int)));
    let v: Vec<i32> = all(list.as_rust()).unwrap();
    assert_eq!(v, vec![1, -2]);
}

#[test]
fn set_of_ints() {
    let set = List::new(raw(&[&[0, 0, 0, 9]]), set_of(plain(ColType::Int)));
    assert_eq!(all(set.as_rust::<i32>()), Ok(vec![9]));
}

#[test]
fn empty_list() {
    let list = List::new(vec![], list_of(plain(ColType::Varchar)));
    assert_eq!(all(list.as_rust::<String>()), Ok(vec![]));
}

#[test]
fn list_of_blobs() {
    let list = List::new(raw(&[&[1, 2], &[]]), list_of(plain(ColType::Blob)));
    assert_eq!(all(list.as_rust::<Vec<u8>>()), Ok(vec![vec![1, 2], vec![]]));
}

#[test]
fn list_of_texts() {
    for id in [ColType::Custom, ColType::Ascii, ColType::Varchar] {
        let list = List::new(raw(&[b"a", b"bc"]), list_of(plain(id)));
        assert_eq!(all(list.as_rust::<String>()), Ok(vec!["a".to_string(), "bc".to_string()]));
    }
    let strict = List::new(raw(&[&[0xff]]), list_of(plain(ColType::Varchar)));
    assert_eq!(all(strict.as_rust::<String>()), Err(Error::Decode(Context::Utf8)));
    let loose = List::new(raw(&[&[0xff]]), list_of(plain(ColType::Ascii)));
    assert_eq!(all(loose.as_rust::<String>()), Ok(vec!["\u{fffd}".to_string()]));
}

#[test]
fn list_of_booleans() {
    let list = List::new(raw(&[&[0], &[1], &[2]]), set_of(plain(ColType::Boolean)));
    assert_eq!(all(list.as_rust::<bool>()), Ok(vec![false, true, true]));
}

#[test]
fn list_of_i64_kinds() {
    let eight = [0u8, 0, 0, 0, 0, 0, 1, 0];
    for id in [ColType::Bigint, ColType::Timestamp, ColType::Time, ColType::Counter] {
        let list = List::new(raw(&[&eight]), list_of(plain(id)));
        assert_eq!(all(list.as_rust::<i64>()), Ok(vec![256]));
    }
    let varints = List::new(raw(&[&[0xff], &[0x01, 0x00]]), list_of(plain(ColType::Varint)));
    assert_eq!(all(varints.as_rust::<i64>()), Ok(vec![-1, 256]));
    let short = List::new(raw(&[&[0xff]]), list_of(plain(ColType::Bigint)));
    assert_eq!(all(short.as_rust::<i64>()), Err(Error::Decode(Context::Width)));
}

#[test]
fn list_of_small_numbers_and_dates() {
    let small = List::new(raw(&[&[0xff, 0xff]]), list_of(plain(ColType::Smallint)));
    assert_eq!(all(small.as_rust::<i16>()), Ok(vec![-1]));
    let tiny = List::new(raw(&[&[0x80]]), list_of(plain(ColType::Tinyint)));
    assert_eq!(all(tiny.as_rust::<i8>()), Ok(vec![-128]));
    let dates = List::new(raw(&[&[0x80, 0, 0, 1]]), list_of(plain(ColType::Date)));
    assert_eq!(all(dates.as_rust::<u32>()), Ok(vec![0x8000_0001]));
}

#[test]
fn list_of_floats_as_bits() {
    let floats = List::new(raw(&[&1.5f32.to_be_bytes()]), list_of(plain(ColType::Float)));
    let bits: Vec<FloatBits> = all(floats.as_rust()).unwrap();
    assert_eq!(f32::from_bits(bits[0].0), 1.5);
    let doubles = List::new(raw(&[&(-0.5f64).to_be_bytes()]), list_of(plain(ColType::Double)));
    let bits: Vec<DoubleBits> = all(doubles.as_rust()).unwrap();
    assert_eq!(f64::from_bits(bits[0].0), -0.5);
}

#[test]
fn list_of_decimals_and_inets() {
    let decimals = List::new(raw(&[&[0, 0, 0, 1, 0x7b]]), list_of(plain(ColType::Decimal)));
    assert_eq!(
        all(decimals.as_rust::<Decimal>()),
        Ok(vec![Decimal { scale: 1, unscaled: Varint { bytes: vec![0x7b] } }])
    );
    let varints = List::new(raw(&[&[1, 0, 0, 0, 0, 0, 0, 0, 0]]), list_of(plain(ColType::Varint)));
    assert_eq!(all(varints.as_rust::<i64>()), Err(Error::Decode(Context::Width)));
    assert_eq!(
        all(varints.as_rust::<Varint>()),
        Ok(vec![Varint { bytes: vec![1, 0, 0, 0, 0, 0, 0, 0, 0] }])
    );
    let inets = List::new(raw(&[&[10, 0, 0, 1]]), list_of(plain(ColType::Inet)));
    assert_eq!(all(inets.as_rust::<Inet>()), Ok(vec![Inet::V4(0x0a00_0001)]));
}

#[test]
fn list_of_uuids() {
    let bytes = [7u8; 16];
    for id in [ColType::Uuid, ColType::Timeuuid] {
        let list = List::new(raw(&[&bytes]), list_of(plain(id)));
        assert_eq!(all(list.as_rust::<uuid::Uuid>()), Ok(vec![uuid::Uuid::from_bytes(bytes)]));
    }
}

#[test]
fn nested_list() {
    let declared = list_of(list_of(plain(ColType::Int)));
    let first = counted(&[&[0, 0, 0, 1], &[0, 0, 0, 2]]);
    let second = counted(&[&[0, 0, 0, 3], &[0, 0, 0, 4]]);
    let column = counted(&[&first, &second]);
    let outer = List::new(decode_list(&column).unwrap(), declared);
    let inner: Vec<List> = all(outer.as_rust()).unwrap();
    assert_eq!(inner.len(), 2);
    assert_eq!(inner[0].metadata(), &list_of(plain(ColType::Int)));
    assert_eq!(all(inner[0].as_rust::<i32>()), Ok(vec![1, 2]));
    assert_eq!(all(inner[1].as_rust::<i32>()), Ok(vec![3, 4]));
}

#[test]
fn incompatible_native_form_is_an_invalid_projection() {
    let list = List::new(raw(&[&[0, 0, 0, 1]]), list_of(plain(ColType::Int)));
    assert_eq!(
        all(list.as_rust::<i64>()),
        Err(Error::InvalidProjection { expected: NativeKind::Bigint, actual: ColType::Int })
    );
    assert_eq!(
        all(list.as_rust::<List>()).err(),
        Some(Error::InvalidProjection { expected: NativeKind::List, actual: ColType::Int })
    );
    assert_eq!(
        all(list.as_rust::<uuid::Uuid>()),
        Err(Error::InvalidProjection { expected: NativeKind::Uuid, actual: ColType::Int })
    );
}

#[test]
fn projection_of_what_is_no_list_is_invalid() {
    let not_a_list = List::new(raw(&[&[0, 0, 0, 1]]), plain(ColType::Int));
    assert_eq!(
        all(not_a_list.as_rust::<i32>()),
        Err(Error::InvalidProjection { expected: NativeKind::Int, actual: ColType::Int })
    );
    let a_map = List::new(vec![], map_of(plain(ColType::Int), plain(ColType::Int)));
    assert_eq!(
        all(a_map.as_rust::<i32>()),
        Err(Error::InvalidProjection { expected: NativeKind::Int, actual: ColType::CMap })
    );
}

#[test]
fn null_item_is_kept_apart_from_empty() {
    let list = List::new(
        vec![CBytes::new(vec![0x01]), CBytes::new(vec![]), CBytes::null()],
        list_of(plain(ColType::Blob)),
    );
    assert_eq!(list.as_rust::<Vec<u8>>(), Ok(vec![Some(vec![0x01]), Some(vec![]), None]));
}

#[test]
fn null_item_is_none() {
    let list = List::new(
        vec![CBytes::new(vec![0, 0, 0, 1]), CBytes::null()],
        list_of(plain(ColType::Int)),
    );
    assert_eq!(list.as_rust::<i32>(), Ok(vec![Some(1), None]));
    let only_nulls = List::new(vec![CBytes::null(), CBytes::null()], set_of(plain(ColType::Uuid)));
    assert_eq!(only_nulls.as_rust::<uuid::Uuid>(), Ok(vec![None, None]));
}

#[test]
fn first_failing_item_decides_the_error() {
    let list = List::new(
        vec![CBytes::null(), CBytes::new(vec![0, 1]), CBytes::new(vec![0xff])],
        list_of(plain(ColType::Int)),
    );
    assert_eq!(list.as_rust::<i32>(), Err(Error::Decode(Context::Width)));
}

#[test]
fn null_keys_and_values_are_none() {
    let declared = map_of(plain(ColType::Varchar), plain(ColType::Int));
    let map = CqlMap::new(
        vec![CBytes::new(b"a".to_vec()), CBytes::null(), CBytes::null(), CBytes::new(vec![0, 0, 0, 2])],
        declared,
    );
    assert_eq!(map.keys::<String>(), Ok(vec![Some("a".to_string()), None]));
    assert_eq!(map.values::<i32>(), Ok(vec![None, Some(2)]));
}

#[test]
fn project_refuses_a_form_that_the_type_has_not() {
    let t = plain(ColType::Int);
    assert_eq!(
        project::<bool>(&t, &vec![]),
        Err(Error::InvalidProjection { expected: NativeKind::Boolean, actual: ColType::Int })
    );
    assert_eq!(
        <bool as Native>::decode(&t, &[1]),
        Err(Error::InvalidProjection { expected: NativeKind::Boolean, actual: ColType::Int })
    );
    assert_eq!(<bool as Native>::decode(&plain(ColType::Boolean), &[1]), Ok(true));
}

#[test]
fn project_reads_every_item() {
    let t = plain(ColType::Boolean);
    assert_eq!(all(project::<bool>(&t, &raw(&[&[1], &[0]]))), Ok(vec![true, false]));
    assert!(<bool as Native>::can_hold(ColType::Boolean));
    assert!(!<bool as Native>::can_hold(ColType::Int));
    assert_eq!(<bool as Native>::native_kind(), NativeKind::Boolean);
}

#[test]
fn map_keys_and_values() {
    let declared = map_of(plain(ColType::Varchar), plain(ColType::Int));
    let map = CqlMap::new(raw(&[b"a", &[0, 0, 0, 1], b"b", &[0, 0, 0, 2]]), declared);
    assert_eq!(map.len(), 2);
    assert_eq!(all(map.keys::<String>()), Ok(vec!["a".to_string(), "b".to_string()]));
    assert_eq!(all(map.values::<i32>()), Ok(vec![1, 2]));
    assert_eq!(
        all(map.keys::<i32>()),
        Err(Error::InvalidProjection { expected: NativeKind::Int, actual: ColType::Varchar })
    );
    assert_eq!(
        all(map.values::<String>()),
        Err(Error::InvalidProjection { expected: NativeKind::Text, actual: ColType::Int })
    );
}

#[test]
fn list_of_maps() {
    let declared = list_of(map_of(plain(ColType::Int), plain(ColType::Boolean)));
    let entry = [0, 0, 0, 1, 0, 0, 0, 4, 0, 0, 0, 5, 0, 0, 0, 1, 1];
    let list = List::new(raw(&[&entry]), declared);
    let maps: Vec<CqlMap> = all(list.as_rust()).unwrap();
    assert_eq!(maps.len(), 1);
    assert_eq!(all(maps[0].keys::<i32>()), Ok(vec![5]));
    assert_eq!(all(maps[0].values::<bool>()), Ok(vec![true]));
    assert_eq!(maps[0].metadata(), &map_of(plain(ColType::Int), plain(ColType::Boolean)));
}

fn person() -> CUdt {
    CUdt {
        ks: "ks".to_string(),
        udt_name: "person".to_string(),
        descriptions: vec![
            ("name".to_string(), plain(ColType::Varchar)),
            ("age".to_string(), plain(ColType::Int)),
        ],
    }
}

#[test]
fn udt_fields_by_index_and_name() {
    let udt = UDT::new(raw(&[b"ann", &[0, 0, 0, 30]]), person());
    assert_eq!(udt.get::<String>(0), Ok(Some("ann".to_string())));
    assert_eq!(udt.get::<i32>(1), Ok(Some(30)));
    assert_eq!(udt.get_by_name::<i32>("age"), Ok(Some(30)));
    assert_eq!(udt.index_of("name"), Some(0));
    assert_eq!(udt.index_of("none"), None);
    assert_eq!(udt.get_by_name::<i32>("none"), Err(Error::OutOfRange));
    assert_eq!(udt.get::<i32>(2), Err(Error::OutOfRange));
    assert_eq!(
        udt.get::<i32>(0),
        Err(Error::InvalidProjection { expected: NativeKind::Int, actual: ColType::Varchar })
    );
    assert_eq!(udt.metadata(), &person());
}

#[test]
fn list_of_udts() {
    let declared = list_of(ColTypeOption {
        id: ColType::Udt,
        value: Some(ColTypeOptionValue::UdtType(person())),
    });
    let mut value = Vec::new();
    value.extend(3i32.to_be_bytes());
    value.extend(b"bob");
    let list = List::new(raw(&[&value]), declared);
    let udts: Vec<UDT> = all(list.as_rust()).unwrap();
    assert_eq!(udts.len(), 1);
    assert_eq!(udts[0].get::<String>(0), Ok(Some("bob".to_string())));
    assert_eq!(udts[0].get::<i32>(1), Ok(None));
}

#[test]
fn tuple_members_by_index() {
    let tuple = Tuple::new(
        vec![CBytes::new(vec![0, 0, 0, 8]), CBytes::null(), CBytes::new(vec![1])],
        vec![plain(ColType::Int), plain(ColType::Varchar), plain(ColType::Boolean)],
    );
    assert_eq!(tuple.len(), 3);
    assert_eq!(tuple.get::<i32>(0), Ok(Some(8)));
    assert_eq!(tuple.get::<String>(1), Ok(None));
    assert_eq!(tuple.get::<bool>(2), Ok(Some(true)));
    assert_eq!(tuple.get::<bool>(3), Err(Error::OutOfRange));
    assert_eq!(
        tuple.get::<bool>(0),
        Err(Error::InvalidProjection { expected: NativeKind::Boolean, actual: ColType::Int })
    );
}

#[test]
fn list_of_tuples() {
    let declared = list_of(ColTypeOption {
        id: ColType::Tuple,
        value: Some(ColTypeOptionValue::TupleType(vec![plain(ColType::Int), plain(ColType::Int)])),
    });
    let value = counted(&[&[0, 0, 0, 1], &[0, 0, 0, 2]]);
    let list = List::new(raw(&[&value]), declared);
    let tuples: Vec<Tuple> = all(list.as_rust()).unwrap();
    assert_eq!(tuples.len(), 1);
    assert_eq!(tuples[0].get::<i32>(0), Ok(Some(1)));
    assert_eq!(tuples[0].get::<i32>(1), Ok(Some(2)));
}
