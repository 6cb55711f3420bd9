//! Results: the description of the columns, the rows, and typed access to their values.

use vstd::prelude::*;
use crate::column::{ColTypeOption, TypeView};
use crate::error::{Context, Error};
use crate::metadata::{read_type, type_at};
use crate::native::{cell, model_of, read_cell, Native};
use crate::primitive::{read_int, signed_at};
use crate::wire::{
    bytes_at, lemma_values_at_len, lemma_values_at_needs, read_bytes, read_string, read_values,
    string_at, values_at, views, CBytes,
};

verus! {

/// The flag that says that all columns belong to one table, which is named once.
pub const GLOBAL_TABLES_SPEC: i32 = 0x0001;

/// The flag that says that more pages follow, and that a paging state is given.
pub const HAS_MORE_PAGES: i32 = 0x0002;

/// The flag that says that the columns are not described.
pub const NO_METADATA: i32 = 0x0004;

/// A column: the table that it belongs to, its name and its type.
#[derive(Debug)]
pub struct ColSpec {
    pub ksname: String,
    pub tablename: String,
    pub name: String,
    pub col_type: ColTypeOption,
}

/// A column as a mathematical value.
pub struct ColSpecView {
    pub ksname: Seq<char>,
    pub tablename: Seq<char>,
    pub name: Seq<char>,
    pub col_type: TypeView,
}

impl View for ColSpec {
    type V = ColSpecView;

    open spec fn view(&self) -> ColSpecView {
        ColSpecView {
            ksname: self.ksname@,
            tablename: self.tablename@,
            name: self.name@,
            col_type: self.col_type@,
        }
    }
}

/// The columns in `v` as mathematical values.
pub open spec fn spec_views(v: Seq<ColSpec>) -> Seq<ColSpecView> {
    v.map_values(|c: ColSpec| c@)
}

/// What a result says of its columns.
#[derive(Debug)]
pub struct RowsMetadata {
    pub flags: i32,
    pub columns_count: i32,
    /// The paging state, where the flags announce one.
    pub paging_state: Option<CBytes>,
    /// The keyspace and the table of all columns, where the flags announce them.
    pub global_table_space: Option<(String, String)>,
    /// The columns, in their order; none where the flags say that they are not described.
    pub col_specs: Vec<ColSpec>,
}

/// What a result says of its columns, as a mathematical value.
pub struct RowsMetadataView {
    pub flags: i32,
    pub columns_count: i32,
    pub paging_state: Option<Option<Seq<u8>>>,
    pub global_table_space: Option<(Seq<char>, Seq<char>)>,
    pub col_specs: Seq<ColSpecView>,
}

impl View for RowsMetadata {
    type V = RowsMetadataView;

    open spec fn view(&self) -> RowsMetadataView {
        RowsMetadataView {
            flags: self.flags,
            columns_count: self.columns_count,
            paging_state: match self.paging_state {
                Some(c) => Some(c@),
                None => None,
            },
            global_table_space: match self.global_table_space {
                Some((ks, table)) => Some((ks@, table@)),
                None => None,
            },
            col_specs: spec_views(self.col_specs@),
        }
    }
}

/// Whether the flag `flag` is set in `flags`.
pub open spec fn is_set(flags: i32, flag: i32) -> bool {
    flags & flag != 0
}

/// Tells whether the flag `flag` is set in `flags`.
pub fn has(flags: i32, flag: i32) -> (r: bool)
    ensures
        r == is_set(flags, flag),
{
    flags & flag != 0
}

/// The paging state at `pos`: a `[bytes]` where the flags announce one.
pub open spec fn paging_at(s: Seq<u8>, pos: nat, flags: i32) -> Result<
    (Option<Option<Seq<u8>>>, nat),
    Error,
> {
    if is_set(flags, HAS_MORE_PAGES) {
        match bytes_at(s, pos) {
            Err(e) => Err(e),
            Ok((v, next)) => Ok((Some(v), next)),
        }
    } else {
        Ok((None, pos))
    }
}

/// A keyspace and a table at `pos`, as two values of `[string]`.
pub open spec fn table_at(s: Seq<u8>, pos: nat) -> Result<((Seq<char>, Seq<char>), nat), Error> {
    match string_at(s, pos) {
        Err(e) => Err(e),
        Ok((ks, p)) => match string_at(s, p) {
            Err(e) => Err(e),
            Ok((table, next)) => Ok(((ks, table), next)),
        },
    }
}

/// The column at `pos`: its keyspace and table, unless `global` names them for all
/// columns, then its name and the description of its type.
pub open spec fn col_spec_at(s: Seq<u8>, pos: nat, global: Option<(Seq<char>, Seq<char>)>) -> Result<
    (ColSpecView, nat),
    Error,
> {
    let table = match global {
        Some(t) => Ok((t, pos)),
        None => table_at(s, pos),
    };
    match table {
        Err(e) => Err(e),
        Ok(((ksname, tablename), p)) => match string_at(s, p) {
            Err(e) => Err(e),
            Ok((name, p1)) => match type_at(s, p1) {
                Err(e) => Err(e),
                Ok((col_type, next)) => Ok(
                    (ColSpecView { ksname, tablename, name, col_type }, next),
                ),
            },
        },
    }
}

/// The `count` columns that follow one another from `pos` on.
pub open spec fn col_specs_at(
    s: Seq<u8>,
    pos: nat,
    count: nat,
    global: Option<(Seq<char>, Seq<char>)>,
) -> Result<(Seq<ColSpecView>, nat), Error>
    decreases count,
{
    if count == 0 {
        Ok((Seq::empty(), pos))
    } else {
        match col_spec_at(s, pos, global) {
            Err(e) => Err(e),
            Ok((c, p)) => match col_specs_at(s, p, (count - 1) as nat, global) {
                Err(e) => Err(e),
                Ok((rest, next)) => Ok((seq![c] + rest, next)),
            },
        }
    }
}

/// What a result says of its columns, at `pos`: the flags and the number of columns,
/// each as an `[int]`; the paging state, where the flags announce one; and, unless the
/// flags say that the columns are not described, the table of all columns, where the
/// flags announce it, and the columns.
pub open spec fn metadata_at(s: Seq<u8>, pos: nat) -> Result<(RowsMetadataView, nat), Error> {
    match signed_at(s, pos, 4) {
        Err(e) => Err(e),
        Ok((flags, p1)) => match signed_at(s, p1, 4) {
            Err(e) => Err(e),
            Ok((count, p2)) => if count < 0 {
                Err(Error::Decode(Context::Length))
            } else {
                match paging_at(s, p2, flags as i32) {
                    Err(e) => Err(e),
                    Ok((paging_state, p3)) => if is_set(flags as i32, NO_METADATA) {
                        Ok(
                            (
                                RowsMetadataView {
                                    flags: flags as i32,
                                    columns_count: count as i32,
                                    paging_state,
                                    global_table_space: None,
                                    col_specs: Seq::empty(),
                                },
                                p3,
                            ),
                        )
                    } else {
                        let global = if is_set(flags as i32, GLOBAL_TABLES_SPEC) {
                            match table_at(s, p3) {
                                Err(e) => Err(e),
                                Ok((t, p)) => Ok((Some(t), p)),
                            }
                        } else {
                            Ok((None, p3))
                        };
                        match global {
                            Err(e) => Err(e),
                            Ok((global_table_space, p4)) => match col_specs_at(
                                s,
                                p4,
                                count as nat,
                                global_table_space,
                            ) {
                                Err(e) => Err(e),
                                Ok((col_specs, next)) => Ok(
                                    (
                                        RowsMetadataView {
                                            flags: flags as i32,
                                            columns_count: count as i32,
                                            paging_state,
                                            global_table_space,
                                            col_specs,
                                        },
                                        next,
                                    ),
                                ),
                            },
                        }
                    },
                }
            },
        },
    }
}

/// Reads a keyspace and a table at `pos`.
fn read_table(bytes: &[u8], pos: usize) -> (r: Result<((String, String), usize), Error>)
    requires
        pos <= bytes@.len(),
    ensures
        match r {
            Ok(((ks, table), next)) => table_at(bytes@, pos as nat) == Ok::<
                ((Seq<char>, Seq<char>), nat),
                Error,
            >(((ks@, table@), next as nat)) && pos <= next <= bytes@.len(),
            Err(e) => table_at(bytes@, pos as nat) == Err::<((Seq<char>, Seq<char>), nat), Error>(
                e,
            ),
        },
{
    let (ks, p) = match read_string(bytes, pos) {
        Ok(x) => x,
        Err(e) => {
            return Err(e);
        },
    };
    match read_string(bytes, p) {
        Ok((table, next)) => Ok(((ks, table), next)),
        Err(e) => Err(e),
    }
}

/// The keyspace and the table in `global` as mathematical values.
pub open spec fn table_view(global: Option<(String, String)>) -> Option<(Seq<char>, Seq<char>)> {
    match global {
        Some((ks, table)) => Some((ks@, table@)),
        None => None,
    }
}

/// Reads the column at `pos`.
fn read_col_spec(bytes: &[u8], pos: usize, global: &Option<(String, String)>) -> (r: Result<
    (ColSpec, usize),
    Error,
>)
    requires
        pos <= bytes@.len(),
    ensures
        match r {
            Ok((c, next)) => col_spec_at(bytes@, pos as nat, table_view(*global)) == Ok::<
                (ColSpecView, nat),
                Error,
            >((c@, next as nat)) && pos < next <= bytes@.len() && c@.col_type.consistent(),
            Err(e) => col_spec_at(bytes@, pos as nat, table_view(*global)) == Err::<
                (ColSpecView, nat),
                Error,
            >(e),
        },
{
    let ((ksname, tablename), p) = match global {
        Some((ks, table)) => ((ks.clone(), table.clone()), pos),
        None => match read_table(bytes, pos) {
            Ok(x) => x,
            Err(e) => {
                return Err(e);
            },
        },
    };
    let (name, p1) = match read_string(bytes, p) {
        Ok(x) => x,
        Err(e) => {
            return Err(e);
        },
    };
    match read_type(bytes, p1) {
        Ok((col_type, next)) => Ok((ColSpec { ksname, tablename, name, col_type }, next)),
        Err(e) => Err(e),
    }
}

/// Reads `count` columns from `pos` on.
fn read_col_specs(
    bytes: &[u8],
    pos: usize,
    count: usize,
    global: &Option<(String, String)>,
) -> (r: Result<(Vec<ColSpec>, usize), Error>)
    requires
        pos <= bytes@.len(),
    ensures
        match r {
            Ok((cs, next)) => col_specs_at(
                bytes@,
                pos as nat,
                count as nat,
                table_view(*global),
            ) == Ok::<(Seq<ColSpecView>, nat), Error>((spec_views(cs@), next as nat)) && pos
                <= next <= bytes@.len() && cs@.len() == count && forall|i: int|
                0 <= i < cs@.len() ==> (#[trigger] cs@[i])@.col_type.consistent(),
            Err(e) => col_specs_at(bytes@, pos as nat, count as nat, table_view(*global))
                == Err::<(Seq<ColSpecView>, nat), Error>(e),
        },
{
    let mut acc: Vec<ColSpec> = Vec::new();
    let mut p: usize = pos;
    let mut i: usize = 0;
    let ghost g = table_view(*global);
    proof {
        assert(spec_views(acc@) =~= Seq::empty());
        match col_specs_at(bytes@, pos as nat, count as nat, g) {
            Ok((rest, q)) => {
                assert(spec_views(acc@) + rest =~= rest);
            },
            Err(_) => {},
        }
    }
    while i < count
        invariant
            i <= count,
            pos <= p <= bytes@.len(),
            acc@.len() == i,
            g == table_view(*global),
            forall|j: int| 0 <= j < acc@.len() ==> (#[trigger] acc@[j])@.col_type.consistent(),
            col_specs_at(bytes@, pos as nat, count as nat, g) == match col_specs_at(
                bytes@,
                p as nat,
                (count - i) as nat,
                g,
            ) {
                Ok((rest, q)) => Ok::<(Seq<ColSpecView>, nat), Error>(
                    (spec_views(acc@) + rest, q),
                ),
                Err(e) => Err::<(Seq<ColSpecView>, nat), Error>(e),
            },
        decreases count - i,
    {
        let ghost before = acc@;
        match read_col_spec(bytes, p, global) {
            Err(e) => {
                return Err(e);
            },
            Ok((c, next)) => {
                proof {
                    assert(spec_views(before.push(c)) =~= spec_views(before) + seq![c@]);
                    match col_specs_at(bytes@, next as nat, (count - i - 1) as nat, g) {
                        Ok((rest, q)) => {
                            assert(spec_views(before) + (seq![c@] + rest) =~= spec_views(
                                before.push(c),
                            ) + rest);
                        },
                        Err(_) => {},
                    }
                }
                acc.push(c);
                p = next;
                i = i + 1;
            },
        }
    }
    proof {
        assert(spec_views(acc@) + Seq::<ColSpecView>::empty() =~= spec_views(acc@));
    }
    Ok((acc, p))
}

impl RowsMetadataView {
    /// Whether the type of every column holds beside its code what the code calls for.
    pub open spec fn consistent(self) -> bool {
        forall|i: int| 0 <= i < self.col_specs.len() ==> (#[trigger] self.col_specs[i]).col_type.consistent()
    }
}

/// Reads what a result says of its columns, at `pos`.
pub fn read_metadata(bytes: &[u8], pos: usize) -> (r: Result<(RowsMetadata, usize), Error>)
    requires
        pos <= bytes@.len(),
    ensures
        match r {
            Ok((m, next)) => metadata_at(bytes@, pos as nat) == Ok::<
                (RowsMetadataView, nat),
                Error,
            >((m@, next as nat)) && pos < next <= bytes@.len() && m.columns_count >= 0
                && m@.consistent(),
            Err(e) => metadata_at(bytes@, pos as nat) == Err::<(RowsMetadataView, nat), Error>(e),
        },
{
    let (flags, p1) = match read_int(bytes, pos) {
        Ok(x) => x,
        Err(e) => {
            return Err(e);
        },
    };
    let (columns_count, p2) = match read_int(bytes, p1) {
        Ok(x) => x,
        Err(e) => {
            return Err(e);
        },
    };
    if columns_count < 0 {
        return Err(Error::Decode(Context::Length));
    }
    let (paging_state, p3) = if has(flags, HAS_MORE_PAGES) {
        match read_bytes(bytes, p2) {
            Ok((v, next)) => (Some(v), next),
            Err(e) => {
                return Err(e);
            },
        }
    } else {
        (None, p2)
    };
    if has(flags, NO_METADATA) {
        let m = RowsMetadata {
            flags,
            columns_count,
            paging_state,
            global_table_space: None,
            col_specs: Vec::new(),
        };
        assert(m@.col_specs =~= Seq::empty());
        return Ok((m, p3));
    }
    let (global_table_space, p4) = if has(flags, GLOBAL_TABLES_SPEC) {
        match read_table(bytes, p3) {
            Ok((t, next)) => (Some(t), next),
            Err(e) => {
                return Err(e);
            },
        }
    } else {
        (None, p3)
    };
    match read_col_specs(bytes, p4, columns_count as usize, &global_table_space) {
        Err(e) => Err(e),
        Ok((col_specs, next)) => {
            let m = RowsMetadata {
                flags,
                columns_count,
                paging_state,
                global_table_space,
                col_specs,
            };
            Ok((m, next))
        },
    }
}

/// The rows of a result: what it says of its columns, the number of rows, and the
/// values of all rows one after another, each row in the order of the columns.
#[derive(Debug)]
pub struct BodyResResultRows {
    pub metadata: RowsMetadata,
    pub rows_count: i32,
    pub rows_content: Vec<CBytes>,
}

/// The rows of a result as a mathematical value.
pub struct RowsView {
    pub metadata: RowsMetadataView,
    pub rows_count: i32,
    pub rows_content: Seq<Option<Seq<u8>>>,
}

impl View for BodyResResultRows {
    type V = RowsView;

    open spec fn view(&self) -> RowsView {
        RowsView {
            metadata: self.metadata@,
            rows_count: self.rows_count,
            rows_content: views(self.rows_content@),
        }
    }
}

impl RowsView {
    /// Whether there is one value for each column of each row, and no other.
    pub open spec fn well_formed(self) -> bool {
        &&& self.rows_count >= 0
        &&& self.metadata.columns_count >= 0
        &&& self.rows_content.len() == self.rows_count * self.metadata.columns_count
    }

    /// The raw value of the column `col` in the row `row`.
    pub open spec fn value(self, row: int, col: int) -> Option<Seq<u8>> {
        self.rows_content[row * self.metadata.columns_count + col]
    }
}

/// The rows at `pos`: what the result says of its columns, the number of rows as an
/// `[int]`, and one `[bytes]` for each column of each row.
pub open spec fn rows_at(s: Seq<u8>, pos: nat) -> Result<(RowsView, nat), Error> {
    match metadata_at(s, pos) {
        Err(e) => Err(e),
        Ok((metadata, p)) => match signed_at(s, p, 4) {
            Err(e) => Err(e),
            Ok((rows, p1)) => if rows < 0 {
                Err(Error::Decode(Context::Length))
            } else {
                match values_at(s, p1, (rows * metadata.columns_count) as nat) {
                    Err(e) => Err(e),
                    Ok((rows_content, next)) => Ok(
                        (RowsView { metadata, rows_count: rows as i32, rows_content }, next),
                    ),
                }
            },
        },
    }
}

/// Rows that can be read hold exactly one value for each column of each row.
pub proof fn lemma_rows_at_well_formed(s: Seq<u8>, pos: nat)
    ensures
        rows_at(s, pos).is_ok() ==> rows_at(s, pos).unwrap().0.well_formed(),
{
    match metadata_at(s, pos) {
        Err(e) => {},
        Ok((metadata, p)) => match signed_at(s, p, 4) {
            Err(e) => {},
            Ok((rows, p1)) => {
                if rows >= 0 {
                    lemma_metadata_at_count(s, pos);
                    assert(rows * metadata.columns_count >= 0) by (nonlinear_arith)
                        requires
                            rows >= 0,
                            metadata.columns_count >= 0,
                    ;
                    lemma_values_at_len(s, p1, (rows * metadata.columns_count) as nat);
                    crate::endian::lemma_pow256_values();
                    if p + 4 <= s.len() {
                        crate::endian::lemma_be_value_bound(s.subrange(p as int, (p + 4) as int));
                    }
                }
            },
        },
    }
}

/// Columns that can be read are not fewer than none.
pub proof fn lemma_metadata_at_count(s: Seq<u8>, pos: nat)
    ensures
        metadata_at(s, pos).is_ok() ==> metadata_at(s, pos).unwrap().0.columns_count >= 0,
{
    crate::endian::lemma_pow256_values();
    match signed_at(s, pos, 4) {
        Err(e) => {},
        Ok((flags, p1)) => {
            if p1 + 4 <= s.len() {
                crate::endian::lemma_be_value_bound(s.subrange(p1 as int, (p1 + 4) as int));
            }
        },
    }
}

/// Reads the rows at `pos`.
pub fn read_rows(bytes: &[u8], pos: usize) -> (r: Result<(BodyResResultRows, usize), Error>)
    requires
        pos <= bytes@.len(),
    ensures
        match r {
            Ok((rows, next)) => rows_at(bytes@, pos as nat) == Ok::<(RowsView, nat), Error>(
                (rows@, next as nat),
            ) && pos < next <= bytes@.len() && rows@.well_formed() && rows@.metadata.consistent(),
            Err(e) => rows_at(bytes@, pos as nat) == Err::<(RowsView, nat), Error>(e),
        },
{
    let (metadata, p) = match read_metadata(bytes, pos) {
        Ok(x) => x,
        Err(e) => {
            return Err(e);
        },
    };
    let (rows_count, p1) = match read_int(bytes, p) {
        Ok(x) => x,
        Err(e) => {
            return Err(e);
        },
    };
    if rows_count < 0 {
        return Err(Error::Decode(Context::Length));
    }
    let columns = metadata.columns_count;
    assert(0 <= rows_count * columns <= 0x7fff_ffff * 0x7fff_ffff) by (nonlinear_arith)
        requires
            0 <= rows_count <= 0x7fff_ffff,
            0 <= columns <= 0x7fff_ffff,
    ;
    let total: u64 = rows_count as u64 * columns as u64;
    proof {
        lemma_values_at_needs(bytes@, p1 as nat, total as nat);
    }
    if total > ((bytes.len() - p1) / 4) as u64 {
        return Err(Error::Decode(Context::Truncated));
    }
    match read_values(bytes, p1, total as usize) {
        Err(e) => Err(e),
        Ok((rows_content, next)) => Ok(
            (BodyResResultRows { metadata, rows_count, rows_content }, next),
        ),
    }
}

/// The value of the column `col` in the row `row` of `rows`, in the form `T`, where
/// `columns` describe the columns.
pub open spec fn cell_at<T: Native>(
    rows: RowsView,
    columns: Seq<ColSpecView>,
    row: int,
    col: int,
) -> Result<Option<T::Model>, Error> {
    if !(0 <= row < rows.rows_count && 0 <= col < rows.metadata.columns_count && col
        < columns.len()) {
        Err(Error::OutOfRange)
    } else {
        cell::<T>(columns[col].col_type, rows.value(row, col))
    }
}

/// The index of the first column named `name`, if there is one.
pub open spec fn index_of(columns: Seq<ColSpecView>, name: Seq<char>) -> Option<int>
    decreases columns.len(),
{
    if columns.len() == 0 {
        None
    } else if columns[0].name == name {
        Some(0)
    } else {
        match index_of(columns.drop_first(), name) {
            Some(i) => Some(i + 1),
            None => None,
        }
    }
}

/// Where a column is found by its name, it is the first that has that name.
pub proof fn lemma_index_of(columns: Seq<ColSpecView>, name: Seq<char>)
    ensures
        match index_of(columns, name) {
            Some(i) => 0 <= i < columns.len() && columns[i].name == name && forall|j: int|
                0 <= j < i ==> (#[trigger] columns[j]).name != name,
            None => forall|j: int| 0 <= j < columns.len() ==> (#[trigger] columns[j]).name != name,
        },
    decreases columns.len(),
{
    if columns.len() > 0 && columns[0].name != name {
        let rest = columns.drop_first();
        lemma_index_of(rest, name);
        match index_of(rest, name) {
            Some(i) => {
                assert forall|j: int| 0 <= j < i + 1 implies (#[trigger] columns[j]).name
                    != name by {
                    if j > 0 {
                        assert(rest[j - 1].name != name);
                    }
                }
            },
            None => {
                assert forall|j: int| 0 <= j < columns.len() implies (#[trigger] columns[j]).name
                    != name by {
                    if j > 0 {
                        assert(rest[j - 1].name != name);
                    }
                }
            },
        }
    }
}

impl RowsMetadata {
    /// The index of the first column named `name`.
    pub fn column_index(&self, name: &str) -> (r: Option<usize>)
        ensures
            match r {
                Some(i) => index_of(self@.col_specs, name@) == Some(i as int),
                None => index_of(self@.col_specs, name@).is_none(),
            },
    {
        let wanted = name.to_owned();
        let mut i: usize = 0;
        let ghost all = self@.col_specs;
        proof {
            assert(all.subrange(0, all.len() as int) =~= all);
        }
        while i < self.col_specs.len()
            invariant
                i <= self.col_specs@.len(),
                wanted@ == name@,
                all == self@.col_specs,
                all.len() == self.col_specs@.len(),
                index_of(all, name@) == match index_of(
                    all.subrange(i as int, all.len() as int),
                    name@,
                ) {
                    Some(k) => Some(k + i),
                    None => None,
                },
            decreases self.col_specs@.len() - i,
        {
            let ghost here = all.subrange(i as int, all.len() as int);
            proof {
                assert(here[0] == self.col_specs@[i as int]@);
                assert(here.drop_first() =~= all.subrange(i + 1, all.len() as int));
            }
            if self.col_specs[i].name == wanted {
                return Some(i);
            }
            i = i + 1;
        }
        None
    }
}

impl BodyResResultRows {
    /// The number of rows.
    pub fn row_count(&self) -> (r: i32)
        ensures
            r == self@.rows_count,
    {
        self.rows_count
    }

    /// What the result says of its columns.
    pub fn metadata(&self) -> (r: &RowsMetadata)
        ensures
            r@ == self@.metadata,
    {
        &self.metadata
    }

    /// Tells whether there is one value for each column of each row, and no other.
    pub fn is_well_formed(&self) -> (r: bool)
        ensures
            r == self@.well_formed(),
    {
        if self.rows_count < 0 || self.metadata.columns_count < 0 {
            return false;
        }
        let rows = self.rows_count;
        let columns = self.metadata.columns_count;
        assert(0 <= rows * columns <= 0x7fff_ffff * 0x7fff_ffff) by (nonlinear_arith)
            requires
                0 <= rows <= 0x7fff_ffff,
                0 <= columns <= 0x7fff_ffff,
        ;
        let total: u64 = rows as u64 * columns as u64;
        let available = self.rows_content.len();
        available as u64 == total
    }

    /// The raw value of the column `col` in the row `row`.
    pub fn raw(&self, row: usize, col: usize) -> (r: Option<&CBytes>)
        requires
            self@.well_formed(),
        ensures
            match r {
                Some(c) => row < self@.rows_count && col < self@.metadata.columns_count && c@
                    == self@.value(row as int, col as int),
                None => !(row < self@.rows_count && col < self@.metadata.columns_count),
            },
    {
        if self.rows_count < 0 || self.metadata.columns_count < 0 {
            return None;
        }
        let rows = self.rows_count as usize;
        let columns = self.metadata.columns_count as usize;
        if row >= rows || col >= columns {
            return None;
        }
        let total = self.rows_content.len();
        assert(0 <= row * columns && row * columns + col < total) by (nonlinear_arith)
            requires
                0 <= row < rows,
                0 <= col < columns,
                total == rows * columns,
        ;
        Some(&self.rows_content[row * columns + col])
    }

    /// The value of the column `col` in the row `row`, in the form `T`, by the
    /// description of the columns that came with the rows. A null gives `None`.
    pub fn get<T: Native>(&self, row: usize, col: usize) -> (r: Result<Option<T>, Error>)
        requires
            self@.well_formed(),
        ensures
            match r {
                Ok(v) => cell_at::<T>(self@, self@.metadata.col_specs, row as int, col as int)
                    == Ok::<Option<T::Model>, Error>(model_of(v)),
                Err(e) => cell_at::<T>(self@, self@.metadata.col_specs, row as int, col as int)
                    == Err::<Option<T::Model>, Error>(e),
            },
    {
        self.get_with::<T>(&self.metadata, row, col)
    }

    /// The value of the column `col` in the row `row`, in the form `T`, by the
    /// description of the columns in `columns`: for rows that came without one.
    pub fn get_with<T: Native>(&self, columns: &RowsMetadata, row: usize, col: usize) -> (r:
        Result<Option<T>, Error>)
        requires
            self@.well_formed(),
        ensures
            match r {
                Ok(v) => cell_at::<T>(self@, columns@.col_specs, row as int, col as int) == Ok::<
                    Option<T::Model>,
                    Error,
                >(model_of(v)),
                Err(e) => cell_at::<T>(self@, columns@.col_specs, row as int, col as int)
                    == Err::<Option<T::Model>, Error>(e),
            },
    {
        if col >= columns.col_specs.len() {
            return Err(Error::OutOfRange);
        }
        match self.raw(row, col) {
            None => Err(Error::OutOfRange),
            Some(c) => read_cell::<T>(&columns.col_specs[col].col_type, c),
        }
    }

    /// The value of the first column named `name` in the row `row`, in the form `T`.
    pub fn get_by_name<T: Native>(&self, row: usize, name: &str) -> (r: Result<Option<T>, Error>)
        requires
            self@.well_formed(),
        ensures
            match index_of(self@.metadata.col_specs, name@) {
                None => r == Err::<Option<T>, Error>(Error::OutOfRange),
                Some(col) => match r {
                    Ok(v) => cell_at::<T>(self@, self@.metadata.col_specs, row as int, col)
                        == Ok::<Option<T::Model>, Error>(model_of(v)),
                    Err(e) => cell_at::<T>(self@, self@.metadata.col_specs, row as int, col)
                        == Err::<Option<T::Model>, Error>(e),
                },
            },
    {
        match self.metadata.column_index(name) {
            None => Err(Error::OutOfRange),
            Some(col) => self.get::<T>(row, col),
        }
    }
}

} // verus!
