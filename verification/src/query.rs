//! Queries: their parameters, how a builder collects them, and how they are written.

use vstd::prelude::*;
use vstd::utf8::encode_utf8;
use crate::consistency::{consistency_wire, Consistency};
use crate::primitive::{
    signed_wire, unsigned_wire, write_byte, write_int, write_long, write_short,
};
use crate::wire::{
    bytes_wire, fits_long, fits_short, long_string_wire, short_bytes_wire, string_wire, views,
    write_bytes, write_long_string, write_short_bytes, write_string, CBytes, MAX_INT_LEN,
    MAX_SHORT_LEN,
};

verus! {

/// The flag of a query that brings values.
pub const FLAG_VALUES: u8 = 0x01;

/// The flag of a query that asks for rows without the description of their columns.
pub const FLAG_SKIP_METADATA: u8 = 0x02;

/// The flag of a query that sets the size of a page.
pub const FLAG_PAGE_SIZE: u8 = 0x04;

/// The flag of a query that brings a paging state.
pub const FLAG_PAGING_STATE: u8 = 0x08;

/// The flag of a query that sets the consistency of its serial phase.
pub const FLAG_SERIAL_CONSISTENCY: u8 = 0x10;

/// The flag of a query that sets its timestamp.
pub const FLAG_TIMESTAMP: u8 = 0x20;

/// The flag of a query whose values have names.
pub const FLAG_NAMES: u8 = 0x40;

/// The values of a query, in their order.
#[derive(Debug)]
pub enum QueryValues {
    Simple(Vec<CBytes>),
    Named(Vec<(String, CBytes)>),
}

/// The values of a query as a mathematical value.
pub enum ValuesView {
    Simple(Seq<Option<Seq<u8>>>),
    Named(Seq<(Seq<char>, Option<Seq<u8>>)>),
}

/// The named values in `v` as mathematical values.
pub open spec fn named_views(v: Seq<(String, CBytes)>) -> Seq<(Seq<char>, Option<Seq<u8>>)> {
    v.map_values(|e: (String, CBytes)| (e.0@, e.1@))
}

impl View for QueryValues {
    type V = ValuesView;

    open spec fn view(&self) -> ValuesView {
        match self {
            QueryValues::Simple(v) => ValuesView::Simple(views(v@)),
            QueryValues::Named(v) => ValuesView::Named(named_views(v@)),
        }
    }
}

impl ValuesView {
    /// How many values there are.
    pub open spec fn count(self) -> nat {
        match self {
            ValuesView::Simple(v) => v.len(),
            ValuesView::Named(v) => v.len(),
        }
    }

    /// Whether the values can be written: their number and the length of each name
    /// fit a `[short]`, and the length of each value fits an `[int]`.
    pub open spec fn well_formed(self) -> bool {
        &&& self.count() <= MAX_SHORT_LEN
        &&& match self {
            ValuesView::Simple(v) => forall|i: int|
                0 <= i < v.len() ==> fits(#[trigger] v[i]),
            ValuesView::Named(v) => forall|i: int|
                0 <= i < v.len() ==> fits((#[trigger] v[i]).1) && encode_utf8(v[i].0).len()
                    <= MAX_SHORT_LEN,
        }
    }
}

/// Whether the length of the value `v` fits an `[int]`.
pub open spec fn fits(v: Option<Seq<u8>>) -> bool {
    v.is_some() ==> v.unwrap().len() <= MAX_INT_LEN
}

/// How values without names are written one after another, each as a `[bytes]`.
pub open spec fn simple_wire(v: Seq<Option<Seq<u8>>>) -> Seq<u8>
    decreases v.len(),
{
    if v.len() == 0 {
        Seq::empty()
    } else {
        bytes_wire(v[0]) + simple_wire(v.drop_first())
    }
}

/// How values with names are written one after another: each name as a `[string]`,
/// and then the value as a `[bytes]`.
pub open spec fn named_wire(v: Seq<(Seq<char>, Option<Seq<u8>>)>) -> Seq<u8>
    decreases v.len(),
{
    if v.len() == 0 {
        Seq::empty()
    } else {
        string_wire(v[0].0) + bytes_wire(v[0].1) + named_wire(v.drop_first())
    }
}

/// How the values of a query are written: their number as a `[short]`, then the values.
pub open spec fn values_wire(v: ValuesView) -> Seq<u8> {
    unsigned_wire(v.count(), 2) + match v {
        ValuesView::Simple(s) => simple_wire(s),
        ValuesView::Named(n) => named_wire(n),
    }
}

/// Appends values without names.
fn write_simple(out: &mut Vec<u8>, v: &Vec<CBytes>)
    requires
        forall|i: int| 0 <= i < v@.len() ==> fits(#[trigger] views(v@)[i]),
    ensures
        final(out)@ == old(out)@ + simple_wire(views(v@)),
{
    let ghost all = views(v@);
    let ghost start = out@;
    let mut i: usize = 0;
    proof {
        assert(all.subrange(0, all.len() as int) =~= all);
    }
    while i < v.len()
        invariant
            i <= v@.len(),
            all == views(v@),
            forall|j: int| 0 <= j < v@.len() ==> fits(#[trigger] all[j]),
            out@ + simple_wire(all.subrange(i as int, all.len() as int)) == start + simple_wire(
                all,
            ),
        decreases v@.len() - i,
    {
        let ghost here = all.subrange(i as int, all.len() as int);
        let ghost before = out@;
        proof {
            assert(here[0] == v@[i as int]@);
            assert(all[i as int] == v@[i as int]@);
            assert(fits(all[i as int]));
            assert(here.drop_first() =~= all.subrange(i + 1, all.len() as int));
        }
        write_bytes(out, &v[i]);
        proof {
            assert(out@ + simple_wire(all.subrange(i + 1, all.len() as int)) =~= before
                + simple_wire(here));
        }
        i = i + 1;
    }
    proof {
        assert(all.subrange(i as int, all.len() as int) =~= Seq::<Option<Seq<u8>>>::empty());
        assert(out@ + simple_wire(Seq::<Option<Seq<u8>>>::empty()) =~= out@);
    }
}

/// Appends values with names.
fn write_named(out: &mut Vec<u8>, v: &Vec<(String, CBytes)>)
    requires
        forall|i: int|
            0 <= i < v@.len() ==> fits((#[trigger] named_views(v@)[i]).1) && encode_utf8(
                named_views(v@)[i].0,
            ).len() <= MAX_SHORT_LEN,
    ensures
        final(out)@ == old(out)@ + named_wire(named_views(v@)),
{
    let ghost all = named_views(v@);
    let ghost start = out@;
    let mut i: usize = 0;
    proof {
        assert(all.subrange(0, all.len() as int) =~= all);
    }
    while i < v.len()
        invariant
            i <= v@.len(),
            all == named_views(v@),
            forall|j: int|
                0 <= j < v@.len() ==> fits((#[trigger] all[j]).1) && encode_utf8(all[j].0).len()
                    <= MAX_SHORT_LEN,
            out@ + named_wire(all.subrange(i as int, all.len() as int)) == start + named_wire(all),
        decreases v@.len() - i,
    {
        let ghost here = all.subrange(i as int, all.len() as int);
        let ghost before = out@;
        proof {
            assert(here[0] == (v@[i as int].0@, v@[i as int].1@));
            assert(all[i as int] == (v@[i as int].0@, v@[i as int].1@));
            assert(fits(all[i as int].1));
            assert(here.drop_first() =~= all.subrange(i + 1, all.len() as int));
        }
        write_string(out, v[i].0.as_str());
        write_bytes(out, &v[i].1);
        proof {
            assert(out@ + named_wire(all.subrange(i + 1, all.len() as int)) =~= before
                + named_wire(here));
        }
        i = i + 1;
    }
    proof {
        assert(all.subrange(i as int, all.len() as int) =~= Seq::<
            (Seq<char>, Option<Seq<u8>>),
        >::empty());
        assert(out@ + named_wire(Seq::<(Seq<char>, Option<Seq<u8>>)>::empty()) =~= out@);
    }
}

/// Tells whether the length of each of the values `v` fits an `[int]`.
fn all_fit(v: &Vec<CBytes>) -> (r: bool)
    ensures
        r == forall|i: int| 0 <= i < v@.len() ==> fits(#[trigger] views(v@)[i]),
{
    let mut i: usize = 0;
    while i < v.len()
        invariant
            i <= v@.len(),
            forall|j: int| 0 <= j < i ==> fits(#[trigger] views(v@)[j]),
        decreases v@.len() - i,
    {
        assert(views(v@)[i as int] == v@[i as int]@);
        if !v[i].is_well_formed() {
            return false;
        }
        i = i + 1;
    }
    true
}

/// Tells whether each of the named values `v` can be written.
fn all_named_fit(v: &Vec<(String, CBytes)>) -> (r: bool)
    ensures
        r == forall|i: int|
            0 <= i < v@.len() ==> fits((#[trigger] named_views(v@)[i]).1) && encode_utf8(
                named_views(v@)[i].0,
            ).len() <= MAX_SHORT_LEN,
{
    let mut i: usize = 0;
    while i < v.len()
        invariant
            i <= v@.len(),
            forall|j: int|
                0 <= j < i ==> fits((#[trigger] named_views(v@)[j]).1) && encode_utf8(
                    named_views(v@)[j].0,
                ).len() <= MAX_SHORT_LEN,
        decreases v@.len() - i,
    {
        assert(named_views(v@)[i as int] == (v@[i as int].0@, v@[i as int].1@));
        if !v[i].1.is_well_formed() || !fits_short(v[i].0.as_str()) {
            return false;
        }
        i = i + 1;
    }
    true
}

impl QueryValues {
    /// Tells whether the values can be written.
    pub fn is_well_formed(&self) -> (r: bool)
        ensures
            r == self@.well_formed(),
    {
        match self {
            QueryValues::Simple(v) => v.len() <= MAX_SHORT_LEN && all_fit(v),
            QueryValues::Named(v) => v.len() <= MAX_SHORT_LEN && all_named_fit(v),
        }
    }

    /// The number of values.
    pub fn len(&self) -> (r: usize)
        ensures
            r == self@.count(),
    {
        match self {
            QueryValues::Simple(v) => v.len(),
            QueryValues::Named(v) => v.len(),
        }
    }

    /// Whether the values have names.
    pub fn with_names(&self) -> (r: bool)
        ensures
            r == (self@ is Named),
    {
        match self {
            QueryValues::Simple(_) => false,
            QueryValues::Named(_) => true,
        }
    }

    /// Appends the values: their number, then each of them.
    pub fn write(&self, out: &mut Vec<u8>)
        requires
            self@.well_formed(),
        ensures
            final(out)@ == old(out)@ + values_wire(self@),
    {
        write_short(out, self.len() as u16);
        match self {
            QueryValues::Simple(v) => {
                write_simple(out, v);
            },
            QueryValues::Named(v) => {
                write_named(out, v);
            },
        }
        assert(out@ =~= old(out)@ + values_wire(self@));
    }
}

/// The parameters of a query.
#[derive(Debug)]
pub struct QueryParams {
    pub consistency: Consistency,
    pub values: Option<QueryValues>,
    /// Whether the rows shall come without the description of their columns.
    pub skip_metadata: bool,
    pub page_size: Option<i32>,
    pub paging_state: Option<CBytes>,
    pub serial_consistency: Option<Consistency>,
    pub timestamp: Option<i64>,
}

/// The parameters of a query as a mathematical value.
pub struct ParamsView {
    pub consistency: Consistency,
    pub values: Option<ValuesView>,
    pub skip_metadata: bool,
    pub page_size: Option<i32>,
    pub paging_state: Option<Option<Seq<u8>>>,
    pub serial_consistency: Option<Consistency>,
    pub timestamp: Option<i64>,
}

impl View for QueryParams {
    type V = ParamsView;

    open spec fn view(&self) -> ParamsView {
        ParamsView {
            consistency: self.consistency,
            values: match self.values {
                Some(v) => Some(v@),
                None => None,
            },
            skip_metadata: self.skip_metadata,
            page_size: self.page_size,
            paging_state: match self.paging_state {
                Some(s) => Some(s@),
                None => None,
            },
            serial_consistency: self.serial_consistency,
            timestamp: self.timestamp,
        }
    }
}

/// The flag `flag` where `present` holds, and no flag where it does not.
pub open spec fn bit(present: bool, flag: u8) -> u8 {
    if present {
        flag
    } else {
        0
    }
}

/// Gives the flag `flag` where `present` holds, and no flag where it does not.
pub fn flag_if(present: bool, flag: u8) -> (r: u8)
    ensures
        r == bit(present, flag),
{
    if present {
        flag
    } else {
        0
    }
}

impl ParamsView {
    /// Parameters with the consistency `consistency` and no option.
    pub open spec fn plain(consistency: Consistency) -> ParamsView {
        ParamsView {
            consistency,
            values: None,
            skip_metadata: false,
            page_size: None,
            paging_state: None,
            serial_consistency: None,
            timestamp: None,
        }
    }

    /// The flags byte: one bit for each option that is present, and one more where
    /// the values have names.
    pub open spec fn flags(self) -> u8 {
        bit(self.values.is_some(), FLAG_VALUES) | bit(self.skip_metadata, FLAG_SKIP_METADATA)
            | bit(self.page_size.is_some(), FLAG_PAGE_SIZE) | bit(
            self.paging_state.is_some(),
            FLAG_PAGING_STATE,
        ) | bit(self.serial_consistency.is_some(), FLAG_SERIAL_CONSISTENCY) | bit(
            self.timestamp.is_some(),
            FLAG_TIMESTAMP,
        ) | bit(self.values.is_some() && self.values.unwrap() is Named, FLAG_NAMES)
    }

    /// Whether the parameters can be written.
    pub open spec fn well_formed(self) -> bool {
        &&& self.values.is_some() ==> self.values.unwrap().well_formed()
        &&& self.paging_state.is_some() ==> fits(self.paging_state.unwrap())
    }

    /// How the values are written, where there are any.
    pub open spec fn values_part(self) -> Seq<u8> {
        match self.values {
            Some(v) => values_wire(v),
            None => Seq::empty(),
        }
    }

    /// How the size of a page is written, where it is set: as an `[int]`.
    pub open spec fn page_part(self) -> Seq<u8> {
        match self.page_size {
            Some(n) => signed_wire(n as int, 4),
            None => Seq::empty(),
        }
    }

    /// How the paging state is written, where there is one: as a `[bytes]`.
    pub open spec fn state_part(self) -> Seq<u8> {
        match self.paging_state {
            Some(s) => bytes_wire(s),
            None => Seq::empty(),
        }
    }

    /// How the serial consistency is written, where it is set.
    pub open spec fn serial_part(self) -> Seq<u8> {
        match self.serial_consistency {
            Some(l) => consistency_wire(l),
            None => Seq::empty(),
        }
    }

    /// How the timestamp is written, where it is set: as a `[long]`.
    pub open spec fn time_part(self) -> Seq<u8> {
        match self.timestamp {
            Some(t) => signed_wire(t as int, 8),
            None => Seq::empty(),
        }
    }

    /// How the parameters are written: the consistency, the flags byte, and then each
    /// option that is present: the values, the size of a page, the paging state, the
    /// serial consistency, and the timestamp.
    pub open spec fn wire(self) -> Seq<u8> {
        consistency_wire(self.consistency) + unsigned_wire(self.flags() as nat, 1)
            + self.values_part() + self.page_part() + self.state_part() + self.serial_part()
            + self.time_part()
    }
}

impl QueryParams {
    /// Parameters with the consistency `consistency` and no option.
    pub fn new(consistency: Consistency) -> (r: QueryParams)
        ensures
            r@ == ParamsView::plain(consistency),
    {
        QueryParams {
            consistency,
            values: None,
            skip_metadata: false,
            page_size: None,
            paging_state: None,
            serial_consistency: None,
            timestamp: None,
        }
    }

    /// Tells whether the parameters can be written.
    pub fn is_well_formed(&self) -> (r: bool)
        ensures
            r == self@.well_formed(),
    {
        let values = match &self.values {
            Some(v) => v.is_well_formed(),
            None => true,
        };
        let state = match &self.paging_state {
            Some(s) => s.is_well_formed(),
            None => true,
        };
        values && state
    }

    /// The flags byte: the bit of an option is set in it where that option is present,
    /// and nowhere else.
    pub fn flags(&self) -> (r: u8)
        ensures
            r == self@.flags(),
            r & FLAG_VALUES != 0 <==> self@.values.is_some(),
            r & FLAG_SKIP_METADATA != 0 <==> self@.skip_metadata,
            r & FLAG_PAGE_SIZE != 0 <==> self@.page_size.is_some(),
            r & FLAG_PAGING_STATE != 0 <==> self@.paging_state.is_some(),
            r & FLAG_SERIAL_CONSISTENCY != 0 <==> self@.serial_consistency.is_some(),
            r & FLAG_TIMESTAMP != 0 <==> self@.timestamp.is_some(),
            r & FLAG_NAMES != 0 <==> self@.values.is_some() && self@.values.unwrap() is Named,
            r & 0x80 == 0,
    {
        proof {
            lemma_flag_bits(
                bit(self@.values.is_some(), FLAG_VALUES),
                bit(self@.skip_metadata, FLAG_SKIP_METADATA),
                bit(self@.page_size.is_some(), FLAG_PAGE_SIZE),
                bit(self@.paging_state.is_some(), FLAG_PAGING_STATE),
                bit(self@.serial_consistency.is_some(), FLAG_SERIAL_CONSISTENCY),
                bit(self@.timestamp.is_some(), FLAG_TIMESTAMP),
                bit(self@.values.is_some() && self@.values.unwrap() is Named, FLAG_NAMES),
            );
        }
        let named = match &self.values {
            Some(v) => v.with_names(),
            None => false,
        };
        flag_if(self.values.is_some(), FLAG_VALUES) | flag_if(
            self.skip_metadata,
            FLAG_SKIP_METADATA,
        ) | flag_if(self.page_size.is_some(), FLAG_PAGE_SIZE) | flag_if(
            self.paging_state.is_some(),
            FLAG_PAGING_STATE,
        ) | flag_if(self.serial_consistency.is_some(), FLAG_SERIAL_CONSISTENCY) | flag_if(
            self.timestamp.is_some(),
            FLAG_TIMESTAMP,
        ) | flag_if(named, FLAG_NAMES)
    }

    fn write_values(&self, out: &mut Vec<u8>)
        requires
            self@.well_formed(),
        ensures
            final(out)@ == old(out)@ + self@.values_part(),
    {
        match &self.values {
            Some(v) => {
                v.write(out);
            },
            None => {
                assert(out@ =~= old(out)@ + self@.values_part());
            },
        }
    }

    fn write_page(&self, out: &mut Vec<u8>)
        ensures
            final(out)@ == old(out)@ + self@.page_part(),
    {
        match self.page_size {
            Some(n) => {
                write_int(out, n);
            },
            None => {
                assert(out@ =~= old(out)@ + self@.page_part());
            },
        }
    }

    fn write_state(&self, out: &mut Vec<u8>)
        requires
            self@.well_formed(),
        ensures
            final(out)@ == old(out)@ + self@.state_part(),
    {
        match &self.paging_state {
            Some(s) => {
                write_bytes(out, s);
            },
            None => {
                assert(out@ =~= old(out)@ + self@.state_part());
            },
        }
    }

    fn write_serial(&self, out: &mut Vec<u8>)
        ensures
            final(out)@ == old(out)@ + self@.serial_part(),
    {
        match self.serial_consistency {
            Some(l) => {
                write_short(out, l.as_short());
            },
            None => {
                assert(out@ =~= old(out)@ + self@.serial_part());
            },
        }
    }

    fn write_time(&self, out: &mut Vec<u8>)
        ensures
            final(out)@ == old(out)@ + self@.time_part(),
    {
        match self.timestamp {
            Some(t) => {
                write_long(out, t);
            },
            None => {
                assert(out@ =~= old(out)@ + self@.time_part());
            },
        }
    }

    /// Appends the parameters.
    pub fn write(&self, out: &mut Vec<u8>)
        requires
            self@.well_formed(),
        ensures
            final(out)@ == old(out)@ + self@.wire(),
    {
        write_short(out, self.consistency.as_short());
        write_byte(out, self.flags());
        self.write_values(out);
        self.write_page(out);
        self.write_state(out);
        self.write_serial(out);
        self.write_time(out);
        proof {
            lemma_concat_seven(
                old(out)@,
                consistency_wire(self.consistency),
                unsigned_wire(self@.flags() as nat, 1),
                self@.values_part(),
                self@.page_part(),
                self@.state_part(),
                self@.serial_part(),
                self@.time_part(),
            );
        }
    }
}

/// In the union of flags that are each absent or set, each bit is set exactly where
/// its flag is.
proof fn lemma_flag_bits(a: u8, b: u8, c: u8, d: u8, e: u8, f: u8, g: u8)
    requires
        a == 0 || a == 0x01,
        b == 0 || b == 0x02,
        c == 0 || c == 0x04,
        d == 0 || d == 0x08,
        e == 0 || e == 0x10,
        f == 0 || f == 0x20,
        g == 0 || g == 0x40,
    ensures
        ({
            let r = a | b | c | d | e | f | g;
            &&& (r & 0x01 != 0 <==> a != 0)
            &&& (r & 0x02 != 0 <==> b != 0)
            &&& (r & 0x04 != 0 <==> c != 0)
            &&& (r & 0x08 != 0 <==> d != 0)
            &&& (r & 0x10 != 0 <==> e != 0)
            &&& (r & 0x20 != 0 <==> f != 0)
            &&& (r & 0x40 != 0 <==> g != 0)
            &&& r & 0x80 == 0
        }),
{
    assert({
        let r = a | b | c | d | e | f | g;
        &&& (r & 0x01 != 0 <==> a != 0)
        &&& (r & 0x02 != 0 <==> b != 0)
        &&& (r & 0x04 != 0 <==> c != 0)
        &&& (r & 0x08 != 0 <==> d != 0)
        &&& (r & 0x10 != 0 <==> e != 0)
        &&& (r & 0x20 != 0 <==> f != 0)
        &&& (r & 0x40 != 0 <==> g != 0)
        &&& r & 0x80 == 0
    }) by (bit_vector)
        requires
            a == 0 || a == 0x01,
            b == 0 || b == 0x02,
            c == 0 || c == 0x04,
            d == 0 || d == 0x08,
            e == 0 || e == 0x10,
            f == 0 || f == 0x20,
            g == 0 || g == 0x40,
    ;
}

/// Appending seven sequences one by one is appending all seven in one.
proof fn lemma_concat_seven(
    o: Seq<u8>,
    a: Seq<u8>,
    b: Seq<u8>,
    c: Seq<u8>,
    d: Seq<u8>,
    e: Seq<u8>,
    f: Seq<u8>,
    g: Seq<u8>,
)
    ensures
        o + a + b + c + d + e + f + g == o + (a + b + c + d + e + f + g),
{
    assert(o + a + b + c + d + e + f + g =~= o + (a + b + c + d + e + f + g));
}

/// How the body of a QUERY is written: the statement as a `[long string]`, then the
/// parameters.
pub open spec fn query_wire(cql: Seq<char>, params: ParamsView) -> Seq<u8> {
    long_string_wire(cql) + params.wire()
}

/// How the body of an EXECUTE is written: the id of the prepared statement as a
/// `[short bytes]`, then the parameters.
pub open spec fn execute_wire(id: Seq<u8>, params: ParamsView) -> Seq<u8> {
    short_bytes_wire(id) + params.wire()
}

/// The body of a QUERY.
pub fn query_body(cql: &str, params: &QueryParams) -> (r: Vec<u8>)
    requires
        encode_utf8(cql@).len() <= MAX_INT_LEN,
        params@.well_formed(),
    ensures
        r@ == query_wire(cql@, params@),
{
    let mut out: Vec<u8> = Vec::new();
    write_long_string(&mut out, cql);
    params.write(&mut out);
    out
}

/// The body of an EXECUTE.
pub fn execute_body(id: &[u8], params: &QueryParams) -> (r: Vec<u8>)
    requires
        id@.len() <= MAX_SHORT_LEN,
        params@.well_formed(),
    ensures
        r@ == execute_wire(id@, params@),
{
    let mut out: Vec<u8> = Vec::new();
    write_short_bytes(&mut out, id);
    params.write(&mut out);
    out
}

/// A statement with its parameters, ready to be sent.
#[derive(Debug)]
pub struct Query {
    pub query: String,
    pub params: QueryParams,
}

/// Collects the parameters of a query, one option at a time.
#[derive(Debug)]
pub struct QueryBuilder {
    query: String,
    params: QueryParams,
}

/// A statement with its parameters as a mathematical value.
pub struct QueryView {
    pub query: Seq<char>,
    pub params: ParamsView,
}

impl View for Query {
    type V = QueryView;

    open spec fn view(&self) -> QueryView {
        QueryView { query: self.query@, params: self.params@ }
    }
}

impl View for QueryBuilder {
    type V = QueryView;

    closed spec fn view(&self) -> QueryView {
        QueryView { query: self.query@, params: self.params@ }
    }
}

impl QueryBuilder {
    /// A builder for the statement `cql`, with the consistency `One` and no option.
    pub fn new(cql: &str) -> (r: QueryBuilder)
        ensures
            r@.query == cql@,
            r@.params == ParamsView::plain(Consistency::One),
    {
        QueryBuilder { query: cql.to_owned(), params: QueryParams::new(Consistency::One) }
    }

    /// Sets the consistency.
    pub fn consistency(self, consistency: Consistency) -> (r: QueryBuilder)
        ensures
            r@ == (QueryView { params: ParamsView { consistency, ..self@.params }, ..self@ }),
    {
        let mut b = self;
        b.params.consistency = consistency;
        b
    }

    /// Sets the values, without names.
    pub fn values(self, values: Vec<CBytes>) -> (r: QueryBuilder)
        ensures
            r@ == (QueryView {
                params: ParamsView {
                    values: Some(ValuesView::Simple(views(values@))),
                    ..self@.params
                },
                ..self@
            }),
    {
        let mut b = self;
        b.params.values = Some(QueryValues::Simple(values));
        b
    }

    /// Sets the values, each with its name.
    pub fn named_values(self, values: Vec<(String, CBytes)>) -> (r: QueryBuilder)
        ensures
            r@ == (QueryView {
                params: ParamsView {
                    values: Some(ValuesView::Named(named_views(values@))),
                    ..self@.params
                },
                ..self@
            }),
    {
        let mut b = self;
        b.params.values = Some(QueryValues::Named(values));
        b
    }

    /// Asks for rows without the description of their columns.
    pub fn skip_metadata(self) -> (r: QueryBuilder)
        ensures
            r@ == (QueryView { params: ParamsView { skip_metadata: true, ..self@.params }, ..self@ }),
    {
        let mut b = self;
        b.params.skip_metadata = true;
        b
    }

    /// Sets the size of a page.
    pub fn page_size(self, size: i32) -> (r: QueryBuilder)
        ensures
            r@ == (QueryView {
                params: ParamsView { page_size: Some(size), ..self@.params },
                ..self@
            }),
    {
        let mut b = self;
        b.params.page_size = Some(size);
        b
    }

    /// Sets the paging state: the one that came with the page before, as it came.
    pub fn paging_state(self, state: CBytes) -> (r: QueryBuilder)
        ensures
            r@ == (QueryView {
                params: ParamsView { paging_state: Some(state@), ..self@.params },
                ..self@
            }),
    {
        let mut b = self;
        b.params.paging_state = Some(state);
        b
    }

    /// Sets the consistency of the serial phase.
    pub fn serial_consistency(self, consistency: Consistency) -> (r: QueryBuilder)
        ensures
            r@ == (QueryView {
                params: ParamsView { serial_consistency: Some(consistency), ..self@.params },
                ..self@
            }),
    {
        let mut b = self;
        b.params.serial_consistency = Some(consistency);
        b
    }

    /// Sets the timestamp.
    pub fn timestamp(self, timestamp: i64) -> (r: QueryBuilder)
        ensures
            r@ == (QueryView {
                params: ParamsView { timestamp: Some(timestamp), ..self@.params },
                ..self@
            }),
    {
        let mut b = self;
        b.params.timestamp = Some(timestamp);
        b
    }

    /// The statement with the parameters collected so far.
    pub fn finalize(self) -> (r: Query)
        ensures
            r@ == self@,
    {
        Query { query: self.query, params: self.params }
    }
}

impl Query {
    /// Whether this query can be written.
    pub open spec fn well_formed(self) -> bool {
        encode_utf8(self@.query).len() <= MAX_INT_LEN && self@.params.well_formed()
    }

    /// Tells whether this query can be written.
    pub fn is_well_formed(&self) -> (r: bool)
        ensures
            r == self.well_formed(),
    {
        fits_long(self.query.as_str()) && self.params.is_well_formed()
    }

    /// The body of the QUERY frame for this query.
    pub fn into_cbytes(&self) -> (r: Vec<u8>)
        requires
            self.well_formed(),
        ensures
            r@ == query_wire(self@.query, self@.params),
    {
        query_body(self.query.as_str(), &self.params)
    }
}

/// The kinds of batches.
#[derive(Debug, Clone, Copy, PartialEq, Eq, Structural)]
pub enum BatchType {
    Logged,
    Unlogged,
    Counter,
}

impl BatchType {
    /// The byte that stands for this kind.
    pub open spec fn byte(self) -> u8 {
        match self {
            BatchType::Logged => 0,
            BatchType::Unlogged => 1,
            BatchType::Counter => 2,
        }
    }

    pub fn as_byte(&self) -> (r: u8)
        ensures
            r == self.byte(),
    {
        match self {
            BatchType::Logged => 0,
            BatchType::Unlogged => 1,
            BatchType::Counter => 2,
        }
    }
}

/// What a statement of a batch is given as.
#[derive(Debug)]
pub enum BatchSubject {
    /// The text of the statement.
    Cql(String),
    /// The id of a prepared statement.
    Prepared(Vec<u8>),
}

/// One statement of a batch, with its values.
#[derive(Debug)]
pub struct BatchQuery {
    pub subject: BatchSubject,
    pub values: Vec<CBytes>,
}

pub enum SubjectView {
    Cql(Seq<char>),
    Prepared(Seq<u8>),
}

/// One statement of a batch as a mathematical value.
pub struct BatchQueryView {
    pub subject: SubjectView,
    pub values: Seq<Option<Seq<u8>>>,
}

impl View for BatchQuery {
    type V = BatchQueryView;

    open spec fn view(&self) -> BatchQueryView {
        BatchQueryView {
            subject: match self.subject {
                BatchSubject::Cql(t) => SubjectView::Cql(t@),
                BatchSubject::Prepared(id) => SubjectView::Prepared(id@),
            },
            values: views(self.values@),
        }
    }
}

impl BatchQueryView {
    /// Whether this statement can be written.
    pub open spec fn well_formed(self) -> bool {
        &&& match self.subject {
            SubjectView::Cql(t) => encode_utf8(t).len() <= MAX_INT_LEN,
            SubjectView::Prepared(id) => id.len() <= MAX_SHORT_LEN,
        }
        &&& self.values.len() <= MAX_SHORT_LEN
        &&& forall|i: int| 0 <= i < self.values.len() ==> fits(#[trigger] self.values[i])
    }

    /// How this statement is written: one byte for its kind, 0 for text and 1 for a
    /// prepared statement; the text as a `[long string]` or the id as a
    /// `[short bytes]`; the number of values as a `[short]`; and the values.
    pub open spec fn wire(self) -> Seq<u8> {
        (match self.subject {
            SubjectView::Cql(t) => unsigned_wire(0, 1) + long_string_wire(t),
            SubjectView::Prepared(id) => unsigned_wire(1, 1) + short_bytes_wire(id),
        }) + values_wire(ValuesView::Simple(self.values))
    }
}

impl BatchQuery {
    /// Tells whether this statement can be written.
    pub fn is_well_formed(&self) -> (r: bool)
        ensures
            r == self@.well_formed(),
    {
        let subject = match &self.subject {
            BatchSubject::Cql(t) => fits_long(t.as_str()),
            BatchSubject::Prepared(id) => id.len() <= MAX_SHORT_LEN,
        };
        subject && self.values.len() <= MAX_SHORT_LEN && all_fit(&self.values)
    }

    /// Appends this statement.
    pub fn write(&self, out: &mut Vec<u8>)
        requires
            self@.well_formed(),
        ensures
            final(out)@ == old(out)@ + self@.wire(),
    {
        match &self.subject {
            BatchSubject::Cql(t) => {
                write_byte(out, 0);
                write_long_string(out, t.as_str());
            },
            BatchSubject::Prepared(id) => {
                write_byte(out, 1);
                write_short_bytes(out, id.as_slice());
            },
        }
        let ghost mid = out@;
        write_short(out, self.values.len() as u16);
        write_simple(out, &self.values);
        proof {
            assert(out@ =~= mid + values_wire(ValuesView::Simple(self@.values)));
            assert(out@ =~= old(out)@ + self@.wire());
        }
    }
}

/// A batch of statements.
#[derive(Debug)]
pub struct Batch {
    pub batch_type: BatchType,
    pub queries: Vec<BatchQuery>,
    pub consistency: Consistency,
    pub serial_consistency: Option<Consistency>,
    pub timestamp: Option<i64>,
}

/// A batch as a mathematical value.
pub struct BatchView {
    pub batch_type: BatchType,
    pub queries: Seq<BatchQueryView>,
    pub consistency: Consistency,
    pub serial_consistency: Option<Consistency>,
    pub timestamp: Option<i64>,
}

/// The statements in `v` as mathematical values.
pub open spec fn query_views(v: Seq<BatchQuery>) -> Seq<BatchQueryView> {
    v.map_values(|q: BatchQuery| q@)
}

impl View for Batch {
    type V = BatchView;

    open spec fn view(&self) -> BatchView {
        BatchView {
            batch_type: self.batch_type,
            queries: query_views(self.queries@),
            consistency: self.consistency,
            serial_consistency: self.serial_consistency,
            timestamp: self.timestamp,
        }
    }
}

/// How the statements of a batch are written one after another.
pub open spec fn queries_wire(v: Seq<BatchQueryView>) -> Seq<u8>
    decreases v.len(),
{
    if v.len() == 0 {
        Seq::empty()
    } else {
        v[0].wire() + queries_wire(v.drop_first())
    }
}

impl BatchView {
    /// Whether this batch can be written.
    pub open spec fn well_formed(self) -> bool {
        &&& self.queries.len() <= MAX_SHORT_LEN
        &&& forall|i: int| 0 <= i < self.queries.len() ==> (#[trigger] self.queries[i]).well_formed()
    }

    /// The flags byte: one bit for each of the two options that is present.
    pub open spec fn flags(self) -> u8 {
        bit(self.serial_consistency.is_some(), FLAG_SERIAL_CONSISTENCY) | bit(
            self.timestamp.is_some(),
            FLAG_TIMESTAMP,
        )
    }

    /// How the serial consistency is written, where it is set.
    pub open spec fn serial_part(self) -> Seq<u8> {
        match self.serial_consistency {
            Some(l) => consistency_wire(l),
            None => Seq::empty(),
        }
    }

    /// How the timestamp is written, where it is set: as a `[long]`.
    pub open spec fn time_part(self) -> Seq<u8> {
        match self.timestamp {
            Some(t) => signed_wire(t as int, 8),
            None => Seq::empty(),
        }
    }

    /// How the body of a BATCH is written: one byte for the kind of batch, the number
    /// of statements as a `[short]`, the statements, the consistency, the flags byte,
    /// and then each of the two options that is present.
    pub open spec fn wire(self) -> Seq<u8> {
        unsigned_wire(self.batch_type.byte() as nat, 1) + unsigned_wire(self.queries.len(), 2)
            + queries_wire(self.queries) + consistency_wire(self.consistency) + unsigned_wire(
            self.flags() as nat,
            1,
        ) + self.serial_part() + self.time_part()
    }
}

impl Batch {
    /// Tells whether this batch can be written.
    pub fn is_well_formed(&self) -> (r: bool)
        ensures
            r == self@.well_formed(),
    {
        if self.queries.len() > MAX_SHORT_LEN {
            return false;
        }
        let mut i: usize = 0;
        while i < self.queries.len()
            invariant
                i <= self.queries@.len(),
                self.queries@.len() <= MAX_SHORT_LEN,
                forall|j: int| 0 <= j < i ==> (#[trigger] self@.queries[j]).well_formed(),
            decreases self.queries@.len() - i,
        {
            assert(self@.queries[i as int] == self.queries@[i as int]@);
            if !self.queries[i].is_well_formed() {
                return false;
            }
            i = i + 1;
        }
        true
    }

    /// The flags byte.
    pub fn flags(&self) -> (r: u8)
        ensures
            r == self@.flags(),
    {
        flag_if(self.serial_consistency.is_some(), FLAG_SERIAL_CONSISTENCY) | flag_if(
            self.timestamp.is_some(),
            FLAG_TIMESTAMP,
        )
    }

    fn write_queries(&self, out: &mut Vec<u8>)
        requires
            self@.well_formed(),
        ensures
            final(out)@ == old(out)@ + queries_wire(self@.queries),
    {
        let ghost all = self@.queries;
        let ghost start = out@;
        let mut i: usize = 0;
        proof {
            assert(all.subrange(0, all.len() as int) =~= all);
        }
        while i < self.queries.len()
            invariant
                i <= self.queries@.len(),
                all == self@.queries,
                all.len() == self.queries@.len(),
                self@.well_formed(),
                out@ + queries_wire(all.subrange(i as int, all.len() as int)) == start
                    + queries_wire(all),
            decreases self.queries@.len() - i,
        {
            let ghost here = all.subrange(i as int, all.len() as int);
            let ghost before = out@;
            proof {
                assert(here[0] == self.queries@[i as int]@);
                assert(all[i as int] == self.queries@[i as int]@);
                assert(all[i as int].well_formed());
                assert(here.drop_first() =~= all.subrange(i + 1, all.len() as int));
            }
            self.queries[i].write(out);
            proof {
                assert(out@ + queries_wire(all.subrange(i + 1, all.len() as int)) =~= before
                    + queries_wire(here));
            }
            i = i + 1;
        }
        proof {
            assert(all.subrange(i as int, all.len() as int) =~= Seq::<BatchQueryView>::empty());
            assert(out@ + queries_wire(Seq::<BatchQueryView>::empty()) =~= out@);
        }
    }

    fn write_serial(&self, out: &mut Vec<u8>)
        ensures
            final(out)@ == old(out)@ + self@.serial_part(),
    {
        match self.serial_consistency {
            Some(l) => {
                write_short(out, l.as_short());
            },
            None => {
                assert(out@ =~= old(out)@ + self@.serial_part());
            },
        }
    }

    fn write_time(&self, out: &mut Vec<u8>)
        ensures
            final(out)@ == old(out)@ + self@.time_part(),
    {
        match self.timestamp {
            Some(t) => {
                write_long(out, t);
            },
            None => {
                assert(out@ =~= old(out)@ + self@.time_part());
            },
        }
    }

    /// The body of the BATCH frame for this batch.
    pub fn into_cbytes(&self) -> (r: Vec<u8>)
        requires
            self@.well_formed(),
        ensures
            r@ == self@.wire(),
    {
        let mut out: Vec<u8> = Vec::new();
        write_byte(&mut out, self.batch_type.as_byte());
        write_short(&mut out, self.queries.len() as u16);
        self.write_queries(&mut out);
        write_short(&mut out, self.consistency.as_short());
        write_byte(&mut out, self.flags());
        self.write_serial(&mut out);
        self.write_time(&mut out);
        proof {
            lemma_concat_seven(
                Seq::empty(),
                unsigned_wire(self.batch_type.byte() as nat, 1),
                unsigned_wire(self.queries@.len(), 2),
                queries_wire(self@.queries),
                consistency_wire(self.consistency),
                unsigned_wire(self@.flags() as nat, 1),
                self@.serial_part(),
                self@.time_part(),
            );
            assert(Seq::<u8>::empty() + self@.wire() =~= self@.wire());
        }
        out
    }
}

} // verus!
