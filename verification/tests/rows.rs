use cdrs::column::{ColType, ColTypeOption};
use cdrs::error::{Context, Error, NativeKind};
use cdrs::response::{read_result, ResResultBody, ResultKind};
use cdrs::result::{has, read_metadata, read_rows, GLOBAL_TABLES_SPEC, HAS_MORE_PAGES, NO_METADATA};
use cdrs::wire::CBytes;

fn text(t: &str) -> Vec<u8> {
    let mut v = vec![(t.len() >> 8) as u8, t.len() as u8];
    v.extend_from_slice(t.as_bytes());
    v
}

fn int4(v: i32) -> Vec<u8> {
    v.to_be_bytes().to_vec()
}

fn one_int_column_rows(values: &[Option<i32>]) -> Vec<u8> {
    let mut b = Vec::new();
    b.extend(int4(GLOBAL_TABLES_SPEC));
    b.extend(int4(1));
    b.extend(text("ks"));
    b.extend(text("t"));
    b.extend(text("n"));
    b.extend([0x00, 0x09]);
    b.extend(int4(values.len() as i32));
    for v in values {
        match v {
            Some(x) => {
                b.extend(int4(4));
                b.extend(int4(*x));
            }
            None => b.extend(int4(-1)),
        }
    }
    b
}

#[test]
fn rows_decode() {
    let mut body = int4(2);
    body.extend(one_int_column_rows(&[Some(42)]));
    let (result, next) = read_result(&body, 0).unwrap();
    assert_eq!(next, body.len());
    assert_eq!(result.kind(), ResultKind::Rows);
    let rows = result.rows().unwrap();
    assert_eq!(rows.row_count(), 1);
    assert_eq!(rows.metadata().columns_count, 1);
    assert_eq!(rows.raw(0, 0), Some(&CBytes::new(vec![0x00, 0x00, 0x00, 0x2A])));
    assert_eq!(rows.get::<i32>(0, 0), Ok(Some(42)));
}

#[test]
fn rows_hold_rows_times_columns_values() {
    let mut b = Vec::new();
    b.extend(int4(0));
    b.extend(int4(2));
    for name in ["a", "b"] {
        b.extend(text("ks"));
        b.extend(text("t"));
        b.extend(text(name));
        b.extend([0x00, 0x09]);
    }
    b.extend(int4(3));
    for v in 0..6 {
        b.extend(int4(4));
        b.extend(int4(v));
    }
    let (rows, next) = read_rows(&b, 0).unwrap();
    assert_eq!(next, b.len());
    assert_eq!(rows.rows_content.len(), 3 * 2);
    assert_eq!(rows.get::<i32>(0, 0), Ok(Some(0)));
    assert_eq!(rows.get::<i32>(0, 1), Ok(Some(1)));
    assert_eq!(rows.get::<i32>(2, 0), Ok(Some(4)));
    assert_eq!(rows.get::<i32>(2, 1), Ok(Some(5)));
    assert_eq!(rows.get_by_name::<i32>(1, "b"), Ok(Some(3)));
    assert_eq!(rows.metadata().column_index("b"), Some(1));
    assert_eq!(rows.metadata().column_index("c"), None);
}

#[test]
fn null_cell_is_none() {
    let body = one_int_column_rows(&[Some(7), None]);
    let (rows, _) = read_rows(&body, 0).unwrap();
    assert_eq!(rows.get::<i32>(0, 0), Ok(Some(7)));
    assert_eq!(rows.get::<i32>(1, 0), Ok(None));
    assert_eq!(rows.raw(1, 0), Some(&CBytes::null()));
}

#[test]
fn cell_outside_the_rows() {
    let body = one_int_column_rows(&[Some(7)]);
    let (rows, _) = read_rows(&body, 0).unwrap();
    assert_eq!(rows.get::<i32>(1, 0), Err(Error::OutOfRange));
    assert_eq!(rows.get::<i32>(0, 1), Err(Error::OutOfRange));
    assert_eq!(rows.get_by_name::<i32>(0, "missing"), Err(Error::OutOfRange));
    assert_eq!(rows.raw(1, 0), None);
}

#[test]
fn cell_in_another_native_form_is_an_invalid_projection() {
    let body = one_int_column_rows(&[Some(7)]);
    let (rows, _) = read_rows(&body, 0).unwrap();
    assert_eq!(
        rows.get::<i64>(0, 0),
        Err(Error::InvalidProjection { expected: NativeKind::Bigint, actual: ColType::Int })
    );
    assert_eq!(
        rows.get::<String>(0, 0),
        Err(Error::InvalidProjection { expected: NativeKind::Text, actual: ColType::Int })
    );
}

#[test]
fn cell_of_the_wrong_width_is_a_decode_error() {
    let mut b = Vec::new();
    b.extend(int4(GLOBAL_TABLES_SPEC));
    b.extend(int4(1));
    b.extend(text("ks"));
    b.extend(text("t"));
    b.extend(text("n"));
    b.extend([0x00, 0x09]);
    b.extend(int4(1));
    b.extend(int4(2));
    b.extend([0, 1]);
    let (rows, _) = read_rows(&b, 0).unwrap();
    assert_eq!(rows.get::<i32>(0, 0), Err(Error::Decode(Context::Width)));
}

#[test]
fn global_table_spec_names_every_column() {
    let body = one_int_column_rows(&[]);
    let (m, _) = read_metadata(&body, 0).unwrap();
    assert_eq!(m.global_table_space, Some(("ks".to_string(), "t".to_string())));
    assert_eq!(m.col_specs.len(), 1);
    assert_eq!(m.col_specs[0].ksname, "ks");
    assert_eq!(m.col_specs[0].tablename, "t");
    assert_eq!(m.col_specs[0].name, "n");
    assert_eq!(m.col_specs[0].col_type, ColTypeOption::plain(ColType::Int));
    assert!(has(m.flags, GLOBAL_TABLES_SPEC));
    assert!(!has(m.flags, NO_METADATA));
}

#[test]
fn paging_state_is_kept_as_it_came() {
    let mut b = Vec::new();
    b.extend(int4(HAS_MORE_PAGES | NO_METADATA));
    b.extend(int4(3));
    b.extend(int4(2));
    b.extend([0xca, 0xfe]);
    let (m, next) = read_metadata(&b, 0).unwrap();
    assert_eq!(next, b.len());
    assert_eq!(m.paging_state, Some(CBytes::new(vec![0xca, 0xfe])));
    assert_eq!(m.columns_count, 3);
    assert!(m.col_specs.is_empty());
    assert_eq!(m.global_table_space, None);
}

#[test]
fn rows_without_metadata_need_it_from_elsewhere() {
    let mut b = Vec::new();
    b.extend(int4(NO_METADATA));
    b.extend(int4(1));
    b.extend(int4(1));
    b.extend(int4(4));
    b.extend(int4(42));
    let (rows, _) = read_rows(&b, 0).unwrap();
    assert_eq!(rows.get::<i32>(0, 0), Err(Error::OutOfRange));
    let (prepared, _) = read_metadata(&one_int_column_rows(&[]), 0).unwrap();
    assert_eq!(rows.get_with::<i32>(&prepared, 0, 0), Ok(Some(42)));
}

#[test]
fn rows_with_too_few_values_are_truncated() {
    let mut body = one_int_column_rows(&[Some(1)]);
    body.truncate(body.len() - 1);
    assert_eq!(read_rows(&body, 0).err(), Some(Error::Decode(Context::Truncated)));
    let mut b = Vec::new();
    b.extend(int4(NO_METADATA));
    b.extend(int4(i32::MAX));
    b.extend(int4(i32::MAX));
    assert_eq!(read_rows(&b, 0).err(), Some(Error::Decode(Context::Truncated)));
}

#[test]
fn negative_counts_are_refused() {
    let mut b = Vec::new();
    b.extend(int4(NO_METADATA));
    b.extend(int4(-1));
    assert_eq!(read_metadata(&b, 0).err(), Some(Error::Decode(Context::Length)));
    let mut b = Vec::new();
    b.extend(int4(NO_METADATA));
    b.extend(int4(1));
    b.extend(int4(-1));
    assert_eq!(read_rows(&b, 0).err(), Some(Error::Decode(Context::Length)));
}

#[test]
fn void_result() {
    let (result, next) = read_result(&int4(1), 0).unwrap();
    assert_eq!(next, 4);
    assert!(matches!(result, ResResultBody::Void));
    assert_eq!(result.kind(), ResultKind::Void);
    assert!(result.rows().is_none());
}

#[test]
fn set_keyspace_result() {
    let mut b = int4(3);
    b.extend(text("system"));
    let (result, _) = read_result(&b, 0).unwrap();
    assert_eq!(result.kind(), ResultKind::SetKeyspace);
    assert!(matches!(result, ResResultBody::SetKeyspace(ref k) if k == "system"));
}

#[test]
fn prepared_result() {
    let mut b = int4(4);
    b.extend([0, 2, 0xab, 0xcd]);
    b.extend(one_int_column_rows(&[])[..one_int_column_rows(&[]).len() - 4].to_vec());
    b.extend(int4(NO_METADATA));
    b.extend(int4(0));
    let (result, next) = read_result(&b, 0).unwrap();
    assert_eq!(next, b.len());
    assert_eq!(result.kind(), ResultKind::Prepared);
    match result {
        ResResultBody::Prepared(p) => {
            assert_eq!(p.id, vec![0xab, 0xcd]);
            assert_eq!(p.metadata.col_specs.len(), 1);
            assert_eq!(p.metadata.col_specs[0].name, "n");
            assert_eq!(p.result_metadata.columns_count, 0);
        }
        _ => panic!("not a prepared result"),
    }
}

#[test]
fn schema_change_result() {
    let mut b = int4(5);
    b.extend(text("CREATED"));
    b.extend(text("TABLE"));
    b.extend(text("ks"));
    b.extend(text("users"));
    let (result, next) = read_result(&b, 0).unwrap();
    assert_eq!(next, b.len());
    match result {
        ResResultBody::SchemaChange(c) => {
            assert_eq!(c.change_type, "CREATED");
            assert_eq!(c.target, "TABLE");
            assert_eq!(c.keyspace, "ks");
            assert_eq!(c.name, Some("users".to_string()));
            assert_eq!(c.arguments, None);
        }
        _ => panic!("not a schema change"),
    }
}

#[test]
fn schema_change_of_keyspace_and_function() {
    let mut b = int4(5);
    b.extend(text("DROPPED"));
    b.extend(text("KEYSPACE"));
    b.extend(text("ks"));
    match read_result(&b, 0).unwrap().0 {
        ResResultBody::SchemaChange(c) => {
            assert_eq!(c.name, None);
            assert_eq!(c.arguments, None);
        }
        _ => panic!("not a schema change"),
    }
    let mut b = int4(5);
    b.extend(text("UPDATED"));
    b.extend(text("FUNCTION"));
    b.extend(text("ks"));
    b.extend(text("f"));
    b.extend([0, 2]);
    b.extend(text("int"));
    b.extend(text("text"));
    match read_result(&b, 0).unwrap().0 {
        ResResultBody::SchemaChange(c) => {
            assert_eq!(c.name, Some("f".to_string()));
            assert_eq!(c.arguments, Some(vec!["int".to_string(), "text".to_string()]));
        }
        _ => panic!("not a schema change"),
    }
    let mut b = int4(5);
    b.extend(text("UPDATED"));
    b.extend(text("VIEW"));
    b.extend(text("ks"));
    assert_eq!(read_result(&b, 0).err(), Some(Error::Decode(Context::UnknownCode)));
}

#[test]
fn unknown_result_kind_is_refused() {
    assert_eq!(read_result(&int4(6), 0).err(), Some(Error::Decode(Context::UnknownCode)));
    assert_eq!(read_result(&int4(0), 0).err(), Some(Error::Decode(Context::UnknownCode)));
    assert_eq!(read_result(&[0, 0], 0).err(), Some(Error::Decode(Context::Truncated)));
}

#[test]
fn result_from_a_frame_is_well_formed() {
    let mut body = int4(2);
    body.extend(one_int_column_rows(&[Some(1), None, Some(3)]));
    let frame = cdrs::frame::Frame {
        version: cdrs::frame::Version::Response,
        flags: 0,
        opcode: cdrs::frame::Opcode::Result,
        stream: 0,
        body,
    };
    match frame.get_body().unwrap() {
        cdrs::response::ResponseBody::Result(result) => {
            let rows = result.rows().unwrap();
            assert!(rows.is_well_formed());
            assert_eq!(rows.get::<i32>(1, 0), Ok(None));
            assert_eq!(rows.get::<i32>(2, 0), Ok(Some(3)));
        }
        _ => panic!("not a result"),
    }
}
