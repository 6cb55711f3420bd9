use cdrs::consistency::Consistency;
use cdrs::frame::{Frame, Opcode, Version};
use cdrs::query::{
    execute_body, query_body, Batch, BatchQuery, BatchSubject, BatchType, QueryBuilder,
    QueryParams, QueryValues, FLAG_NAMES, FLAG_PAGE_SIZE, FLAG_PAGING_STATE,
    FLAG_SERIAL_CONSISTENCY, FLAG_SKIP_METADATA, FLAG_TIMESTAMP, FLAG_VALUES,
};
use cdrs::error::{Context, Error};
use cdrs::request::{
    auth_response_body, options_body, prepare_body, read_string_map, register_body,
    request_frame, startup_body, write_string_map, Compression,
};
use cdrs::wire::CBytes;

#[test]
fn startup() {
    let body = startup_body(Compression::Off);
    assert_eq!(
        body,
        vec![
            0x00, 0x01, 0x00, 0x0B, 0x43, 0x51, 0x4C, 0x5F, 0x56, 0x45, 0x52, 0x53, 0x49, 0x4F,
            0x4E, 0x00, 0x05, 0x33, 0x2E, 0x30, 0x2E, 0x30,
        ]
    );
    let frame = request_frame(Opcode::Startup, 0, body);
    let bytes = frame.into_cbytes();
    assert_eq!(&bytes[0..9], &[0x04, 0x00, 0x00, 0x00, 0x01, 0x00, 0x00, 0x00, 0x16]);
    assert_eq!(bytes.len(), 9 + 0x16);
}

#[test]
fn startup_with_compression() {
    let mut expected = vec![0x00, 0x02];
    expected.extend([0x00, 0x0B]);
    expected.extend(b"CQL_VERSION");
    expected.extend([0x00, 0x05]);
    expected.extend(b"3.0.0");
    expected.extend([0x00, 0x0B]);
    expected.extend(b"COMPRESSION");
    let mut lz4 = expected.clone();
    lz4.extend([0x00, 0x03]);
    lz4.extend(b"lz4");
    assert_eq!(startup_body(Compression::Lz4), lz4);
    let mut snappy = expected;
    snappy.extend([0x00, 0x06]);
    snappy.extend(b"snappy");
    assert_eq!(startup_body(Compression::Snappy), snappy);
}

#[test]
fn request_frame_is_on_stream_zero() {
    let frame: Frame = request_frame(Opcode::Options, 0x01, options_body());
    assert_eq!(frame.version, Version::Request);
    assert_eq!(frame.flags, 0x01);
    assert_eq!(frame.opcode, Opcode::Options);
    assert_eq!(frame.stream, 0);
    assert!(frame.body.is_empty());
    assert_eq!(frame.into_cbytes(), vec![0x04, 0x01, 0, 0, 0x05, 0, 0, 0, 0]);
}

#[test]
fn query_with_one() {
    let query = QueryBuilder::new("SELECT * FROM t").consistency(Consistency::One).finalize();
    let body = query.into_cbytes();
    assert_eq!(
        body,
        vec![
            0x00, 0x00, 0x00, 0x0F, 0x53, 0x45, 0x4C, 0x45, 0x43, 0x54, 0x20, 0x2A, 0x20, 0x46,
            0x52, 0x4F, 0x4D, 0x20, 0x74, 0x00, 0x01, 0x00,
        ]
    );
}

#[test]
fn builder_defaults_to_one() {
    let query = QueryBuilder::new("x").finalize();
    assert_eq!(query.query, "x");
    assert_eq!(query.params.consistency, Consistency::One);
    assert!(query.params.values.is_none());
    assert!(!query.params.skip_metadata);
    assert_eq!(query.params.page_size, None);
    assert_eq!(query.params.paging_state, None);
    assert_eq!(query.params.serial_consistency, None);
    assert_eq!(query.params.timestamp, None);
    assert_eq!(query.params.flags(), 0);
}

#[test]
fn flags_follow_the_options() {
    assert_eq!(QueryParams::new(Consistency::Any).flags(), 0x00);
    let flags = |b: QueryBuilder| b.finalize().params.flags();
    assert_eq!(flags(QueryBuilder::new("q").values(vec![])), FLAG_VALUES);
    assert_eq!(flags(QueryBuilder::new("q").named_values(vec![])), FLAG_VALUES | FLAG_NAMES);
    assert_eq!(flags(QueryBuilder::new("q").skip_metadata()), FLAG_SKIP_METADATA);
    assert_eq!(flags(QueryBuilder::new("q").page_size(10)), FLAG_PAGE_SIZE);
    assert_eq!(flags(QueryBuilder::new("q").paging_state(CBytes::new(vec![]))), FLAG_PAGING_STATE);
    assert_eq!(
        flags(QueryBuilder::new("q").serial_consistency(Consistency::Serial)),
        FLAG_SERIAL_CONSISTENCY
    );
    assert_eq!(flags(QueryBuilder::new("q").timestamp(1)), FLAG_TIMESTAMP);
    let all = QueryBuilder::new("q")
        .named_values(vec![])
        .skip_metadata()
        .page_size(1)
        .paging_state(CBytes::null())
        .serial_consistency(Consistency::LocalSerial)
        .timestamp(0);
    assert_eq!(flags(all), 0x7f);
}

#[test]
fn query_with_every_option() {
    let query = QueryBuilder::new("q")
        .consistency(Consistency::Quorum)
        .values(vec![CBytes::new(vec![0, 0, 0, 7]), CBytes::null()])
        .page_size(100)
        .paging_state(CBytes::new(vec![0xaa, 0xbb]))
        .serial_consistency(Consistency::Serial)
        .timestamp(0x0102030405060708)
        .finalize();
    let mut expected = vec![0, 0, 0, 1, b'q'];
    expected.extend([0x00, 0x04]);
    expected.push(0x01 | 0x04 | 0x08 | 0x10 | 0x20);
    expected.extend([0x00, 0x02]);
    expected.extend([0, 0, 0, 4, 0, 0, 0, 7]);
    expected.extend([0xff, 0xff, 0xff, 0xff]);
    expected.extend([0, 0, 0, 100]);
    expected.extend([0, 0, 0, 2, 0xaa, 0xbb]);
    expected.extend([0x00, 0x08]);
    expected.extend([1, 2, 3, 4, 5, 6, 7, 8]);
    assert_eq!(query.into_cbytes(), expected);
    assert_eq!(query_body("q", &query.params), expected);
}

#[test]
fn named_values_carry_their_names() {
    let query = QueryBuilder::new("q")
        .named_values(vec![("id".to_string(), CBytes::new(vec![1]))])
        .finalize();
    let mut expected = vec![0, 0, 0, 1, b'q', 0x00, 0x01, 0x41];
    expected.extend([0x00, 0x01]);
    expected.extend([0x00, 0x02, b'i', b'd']);
    expected.extend([0, 0, 0, 1, 1]);
    assert_eq!(query.into_cbytes(), expected);
}

#[test]
fn query_values_can_be_written_alone() {
    let values = QueryValues::Simple(vec![CBytes::new(vec![9])]);
    assert_eq!(values.len(), 1);
    assert!(!values.with_names());
    let mut out = vec![0xee];
    values.write(&mut out);
    assert_eq!(out, vec![0xee, 0, 1, 0, 0, 0, 1, 9]);
    let mut out = Vec::new();
    QueryParams::new(Consistency::Two).write(&mut out);
    assert_eq!(out, vec![0, 2, 0]);
}

#[test]
fn execute_has_the_id_then_the_parameters() {
    let params = QueryBuilder::new("").consistency(Consistency::All).page_size(-1).finalize().params;
    assert_eq!(
        execute_body(&[0xab, 0xcd], &params),
        vec![0x00, 0x02, 0xab, 0xcd, 0x00, 0x05, 0x04, 0xff, 0xff, 0xff, 0xff]
    );
}

#[test]
fn prepare_is_a_long_string() {
    assert_eq!(prepare_body("SELECT"), vec![0, 0, 0, 6, b'S', b'E', b'L', b'E', b'C', b'T']);
}

#[test]
fn auth_response_is_bytes() {
    assert_eq!(auth_response_body(&CBytes::new(vec![0, b'u', 0, b'p'])), vec![0, 0, 0, 4, 0, b'u', 0, b'p']);
    assert_eq!(auth_response_body(&CBytes::null()), vec![0xff, 0xff, 0xff, 0xff]);
}

#[test]
fn register_is_a_string_list() {
    let events = vec!["STATUS_CHANGE".to_string()];
    let mut expected = vec![0x00, 0x01, 0x00, 0x0D];
    expected.extend(b"STATUS_CHANGE");
    assert_eq!(register_body(&events), expected);
}

#[test]
fn batch_types() {
    assert_eq!(BatchType::Logged.as_byte(), 0);
    assert_eq!(BatchType::Unlogged.as_byte(), 1);
    assert_eq!(BatchType::Counter.as_byte(), 2);
}

#[test]
fn batch_body() {
    let batch = Batch {
        batch_type: BatchType::Unlogged,
        queries: vec![
            BatchQuery {
                subject: BatchSubject::Cql("q1".to_string()),
                values: vec![CBytes::new(vec![5])],
            },
            BatchQuery { subject: BatchSubject::Prepared(vec![0xab]), values: vec![] },
        ],
        consistency: Consistency::LocalQuorum,
        serial_consistency: Some(Consistency::LocalSerial),
        timestamp: Some(-1),
    };
    assert_eq!(batch.flags(), 0x30);
    let mut expected = vec![1, 0x00, 0x02];
    expected.extend([0, 0, 0, 0, 2, b'q', b'1', 0x00, 0x01, 0, 0, 0, 1, 5]);
    expected.extend([1, 0x00, 0x01, 0xab, 0x00, 0x00]);
    expected.extend([0x00, 0x06, 0x30, 0x00, 0x09]);
    expected.extend([0xff; 8]);
    assert_eq!(batch.into_cbytes(), expected);
}

#[test]
fn empty_batch_without_options() {
    let batch = Batch {
        batch_type: BatchType::Logged,
        queries: vec![],
        consistency: Consistency::One,
        serial_consistency: None,
        timestamp: None,
    };
    assert_eq!(batch.flags(), 0);
    assert_eq!(batch.into_cbytes(), vec![0, 0, 0, 0, 1, 0]);
    let mut out = vec![7];
    BatchQuery { subject: BatchSubject::Prepared(vec![]), values: vec![] }.write(&mut out);
    assert_eq!(out, vec![7, 1, 0, 0, 0, 0]);
}

#[test]
fn string_map_round_trip() {
    let map = vec![
        ("CQL_VERSION".to_string(), "3.0.0".to_string()),
        ("".to_string(), "ü".to_string()),
    ];
    let mut out = vec![0xaa];
    write_string_map(&mut out, &map);
    assert_eq!(read_string_map(&out, 1), Ok((map, out.len())));
}

#[test]
fn startup_body_is_a_string_map() {
    let body = startup_body(Compression::Snappy);
    let expected = vec![
        ("CQL_VERSION".to_string(), "3.0.0".to_string()),
        ("COMPRESSION".to_string(), "snappy".to_string()),
    ];
    assert_eq!(read_string_map(&body, 0), Ok((expected, body.len())));
}

#[test]
fn truncated_string_map_is_refused() {
    assert_eq!(
        read_string_map(&[0, 1, 0, 1, b'k'], 0),
        Err(Error::Decode(Context::Truncated))
    );
    assert_eq!(read_string_map(&[0, 0], 0), Ok((vec![], 2)));
}
