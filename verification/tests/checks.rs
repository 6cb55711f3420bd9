use cdrs::consistency::Consistency;
use cdrs::frame::{Frame, Opcode, Version};
use cdrs::query::{Batch, BatchQuery, BatchSubject, BatchType, QueryBuilder, QueryValues};
use cdrs::result::read_rows;
use cdrs::wire::{fit_string_list, fits_long, fits_short, CBytes};

#[test]
fn texts_up_to_the_limit_fit() {
    assert!(fits_short(""));
    assert!(fits_short(&"a".repeat(0xffff)));
    assert!(!fits_short(&"a".repeat(0x1_0000)));
    assert!(!fits_short(&"é".repeat(0x8000)));
    assert!(fits_long(&"a".repeat(0x1_0000)));
}

#[test]
fn string_lists_fit_by_count_and_by_text() {
    assert!(fit_string_list(&vec![]));
    assert!(fit_string_list(&vec!["a".to_string(), "b".to_string()]));
    assert!(!fit_string_list(&vec!["a".to_string(), "b".repeat(0x1_0000)]));
    assert!(!fit_string_list(&vec![String::new(); 0x1_0000]));
}

#[test]
fn frames_and_values_of_ordinary_size_are_well_formed() {
    let frame = Frame {
        version: Version::Request,
        flags: 0,
        opcode: Opcode::Query,
        stream: 0,
        body: vec![0; 1000],
    };
    assert!(frame.is_well_formed());
    assert!(CBytes::null().is_well_formed());
    assert!(CBytes::new(vec![1, 2, 3]).is_well_formed());
}

#[test]
fn queries_are_well_formed_unless_something_is_too_long() {
    let query = QueryBuilder::new("SELECT 1")
        .values(vec![CBytes::new(vec![1]), CBytes::null()])
        .paging_state(CBytes::new(vec![]))
        .finalize();
    assert!(query.is_well_formed());
    assert!(query.params.is_well_formed());
    let long_name = QueryBuilder::new("q")
        .named_values(vec![("n".repeat(0x1_0000), CBytes::null())])
        .finalize();
    assert!(!long_name.is_well_formed());
    assert!(!QueryValues::Simple(vec![CBytes::null(); 0x1_0000]).is_well_formed());
    assert!(QueryValues::Named(vec![("n".to_string(), CBytes::null())]).is_well_formed());
}

#[test]
fn batches_are_well_formed_unless_something_is_too_long() {
    let query = |id: Vec<u8>| BatchQuery { subject: BatchSubject::Prepared(id), values: vec![] };
    let batch = |queries: Vec<BatchQuery>| Batch {
        batch_type: BatchType::Logged,
        queries,
        consistency: Consistency::One,
        serial_consistency: None,
        timestamp: None,
    };
    assert!(batch(vec![query(vec![1]), query(vec![])]).is_well_formed());
    assert!(!batch(vec![query(vec![1]), query(vec![0; 0x1_0000])]).is_well_formed());
    assert!(query(vec![0; 0xffff]).is_well_formed());
    assert!(BatchQuery { subject: BatchSubject::Cql("q".to_string()), values: vec![] }
        .is_well_formed());
}

#[test]
fn rows_as_read_are_well_formed() {
    let bytes = [0, 0, 0, 4, 0, 0, 0, 2, 0, 0, 0, 1, 0xff, 0xff, 0xff, 0xff, 0, 0, 0, 0];
    let (mut rows, _) = read_rows(&bytes, 0).unwrap();
    assert!(rows.is_well_formed());
    rows.rows_content.pop();
    assert!(!rows.is_well_formed());
    rows.rows_count = -1;
    assert!(!rows.is_well_formed());
}
