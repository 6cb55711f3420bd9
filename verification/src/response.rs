//! The bodies of the frames that a server sends, by opcode.

use vstd::prelude::*;
use crate::error::{Context, Error};
use crate::event::{event_at, read_event, EventView, ServerEvent};
use crate::frame::{Frame, Opcode};
use crate::primitive::{read_int, read_short, signed_at, unsigned_at};
use crate::result::{
    metadata_at, read_metadata, read_rows, rows_at, BodyResResultRows, RowsMetadata,
    RowsMetadataView, RowsView,
};
use crate::schema::{read_schema_change, schema_change_at, SchemaChange, SchemaChangeView};
use crate::server_error::{error_at, read_error, ErrorBody, ErrorBodyView};
use crate::wire::{
    bytes_at, read_bytes, read_short_bytes, read_string, read_string_list, short_bytes_at,
    string_at, string_list_at, texts, CBytes,
};

verus! {

/// The code of a result that holds nothing.
pub const RESULT_VOID: i32 = 0x0001;

/// The code of a result that holds rows.
pub const RESULT_ROWS: i32 = 0x0002;

/// The code of a result that names the keyspace now in use.
pub const RESULT_SET_KEYSPACE: i32 = 0x0003;

/// The code of a result that describes a prepared statement.
pub const RESULT_PREPARED: i32 = 0x0004;

/// The code of a result that reports a change of the schema.
pub const RESULT_SCHEMA_CHANGE: i32 = 0x0005;

/// The kinds of results.
#[derive(Debug, Clone, Copy, PartialEq, Eq, Structural)]
pub enum ResultKind {
    Void,
    Rows,
    SetKeyspace,
    Prepared,
    SchemaChange,
}

/// A prepared statement: the id by which the server knows it, the description of the
/// values to bind, and the description of the rows that it will give.
#[derive(Debug)]
pub struct BodyResResultPrepared {
    pub id: Vec<u8>,
    pub metadata: RowsMetadata,
    pub result_metadata: RowsMetadata,
}

/// A prepared statement as a mathematical value.
pub struct PreparedView {
    pub id: Seq<u8>,
    pub metadata: RowsMetadataView,
    pub result_metadata: RowsMetadataView,
}

impl View for BodyResResultPrepared {
    type V = PreparedView;

    open spec fn view(&self) -> PreparedView {
        PreparedView {
            id: self.id@,
            metadata: self.metadata@,
            result_metadata: self.result_metadata@,
        }
    }
}

/// The prepared statement at `pos`: its id as a `[short bytes]`, then the two
/// descriptions.
pub open spec fn prepared_at(s: Seq<u8>, pos: nat) -> Result<(PreparedView, nat), Error> {
    match short_bytes_at(s, pos) {
        Err(e) => Err(e),
        Ok((id, p)) => match metadata_at(s, p) {
            Err(e) => Err(e),
            Ok((metadata, p1)) => match metadata_at(s, p1) {
                Err(e) => Err(e),
                Ok((result_metadata, next)) => Ok(
                    (PreparedView { id, metadata, result_metadata }, next),
                ),
            },
        },
    }
}

/// Reads the prepared statement at `pos`.
pub fn read_prepared(bytes: &[u8], pos: usize) -> (r: Result<
    (BodyResResultPrepared, usize),
    Error,
>)
    requires
        pos <= bytes@.len(),
    ensures
        match r {
            Ok((b, next)) => prepared_at(bytes@, pos as nat) == Ok::<(PreparedView, nat), Error>(
                (b@, next as nat),
            ) && pos < next <= bytes@.len() && b@.metadata.consistent()
                && b@.result_metadata.consistent(),
            Err(e) => prepared_at(bytes@, pos as nat) == Err::<(PreparedView, nat), Error>(e),
        },
{
    let (id, p) = match read_short_bytes(bytes, pos) {
        Ok(x) => x,
        Err(e) => {
            return Err(e);
        },
    };
    let (metadata, p1) = match read_metadata(bytes, p) {
        Ok(x) => x,
        Err(e) => {
            return Err(e);
        },
    };
    match read_metadata(bytes, p1) {
        Ok((result_metadata, next)) => Ok(
            (BodyResResultPrepared { id, metadata, result_metadata }, next),
        ),
        Err(e) => Err(e),
    }
}

/// The body of a RESULT frame.
#[derive(Debug)]
pub enum ResResultBody {
    Void,
    Rows(BodyResResultRows),
    SetKeyspace(String),
    Prepared(BodyResResultPrepared),
    SchemaChange(SchemaChange),
}

/// The body of a RESULT frame as a mathematical value.
pub enum ResultView {
    Void,
    Rows(RowsView),
    SetKeyspace(Seq<char>),
    Prepared(PreparedView),
    SchemaChange(SchemaChangeView),
}

impl View for ResResultBody {
    type V = ResultView;

    open spec fn view(&self) -> ResultView {
        match self {
            ResResultBody::Void => ResultView::Void,
            ResResultBody::Rows(r) => ResultView::Rows(r@),
            ResResultBody::SetKeyspace(k) => ResultView::SetKeyspace(k@),
            ResResultBody::Prepared(p) => ResultView::Prepared(p@),
            ResResultBody::SchemaChange(c) => ResultView::SchemaChange(c@),
        }
    }
}

impl ResultView {
    /// The kind of this result.
    pub open spec fn kind(self) -> ResultKind {
        match self {
            ResultView::Void => ResultKind::Void,
            ResultView::Rows(_) => ResultKind::Rows,
            ResultView::SetKeyspace(_) => ResultKind::SetKeyspace,
            ResultView::Prepared(_) => ResultKind::Prepared,
            ResultView::SchemaChange(_) => ResultKind::SchemaChange,
        }
    }

    /// Whether rows, where this result holds any, hold one value for each column of
    /// each row, and the type of every column that this result describes holds beside
    /// its code what the code calls for.
    pub open spec fn well_formed(self) -> bool {
        match self {
            ResultView::Rows(r) => r.well_formed() && r.metadata.consistent(),
            ResultView::Prepared(p) => p.metadata.consistent() && p.result_metadata.consistent(),
            _ => true,
        }
    }
}

impl ResResultBody {
    /// The kind of this result.
    pub fn kind(&self) -> (r: ResultKind)
        ensures
            r == self@.kind(),
    {
        match self {
            ResResultBody::Void => ResultKind::Void,
            ResResultBody::Rows(_) => ResultKind::Rows,
            ResResultBody::SetKeyspace(_) => ResultKind::SetKeyspace,
            ResResultBody::Prepared(_) => ResultKind::Prepared,
            ResResultBody::SchemaChange(_) => ResultKind::SchemaChange,
        }
    }

    /// The rows, where this result holds rows.
    pub fn rows(&self) -> (r: Option<&BodyResResultRows>)
        ensures
            match r {
                Some(rows) => self@ == ResultView::Rows(rows@),
                None => self@.kind() != ResultKind::Rows,
            },
    {
        match self {
            ResResultBody::Rows(r) => Some(r),
            _ => None,
        }
    }
}

/// The result at `pos`: its kind as an `[int]`, and what that kind holds.
#[verifier::opaque]
pub open spec fn result_at(s: Seq<u8>, pos: nat) -> Result<(ResultView, nat), Error> {
    match signed_at(s, pos, 4) {
        Err(e) => Err(e),
        Ok((kind, p)) => if kind == RESULT_VOID {
            Ok((ResultView::Void, p))
        } else if kind == RESULT_ROWS {
            match rows_at(s, p) {
                Err(e) => Err(e),
                Ok((r, next)) => Ok((ResultView::Rows(r), next)),
            }
        } else if kind == RESULT_SET_KEYSPACE {
            match string_at(s, p) {
                Err(e) => Err(e),
                Ok((k, next)) => Ok((ResultView::SetKeyspace(k), next)),
            }
        } else if kind == RESULT_PREPARED {
            match prepared_at(s, p) {
                Err(e) => Err(e),
                Ok((b, next)) => Ok((ResultView::Prepared(b), next)),
            }
        } else if kind == RESULT_SCHEMA_CHANGE {
            match schema_change_at(s, p) {
                Err(e) => Err(e),
                Ok((c, next)) => Ok((ResultView::SchemaChange(c), next)),
            }
        } else {
            Err(Error::Decode(Context::UnknownCode))
        },
    }
}

/// Reads the result at `pos`.
pub fn read_result(bytes: &[u8], pos: usize) -> (r: Result<(ResResultBody, usize), Error>)
    requires
        pos <= bytes@.len(),
    ensures
        match r {
            Ok((b, next)) => result_at(bytes@, pos as nat) == Ok::<(ResultView, nat), Error>(
                (b@, next as nat),
            ) && pos < next <= bytes@.len() && b@.well_formed(),
            Err(e) => result_at(bytes@, pos as nat) == Err::<(ResultView, nat), Error>(e),
        },
{
    reveal(result_at);
    let (kind, p) = match read_int(bytes, pos) {
        Ok(x) => x,
        Err(e) => {
            return Err(e);
        },
    };
    if kind == RESULT_VOID {
        Ok((ResResultBody::Void, p))
    } else if kind == RESULT_ROWS {
        match read_rows(bytes, p) {
            Err(e) => Err(e),
            Ok((r, next)) => Ok((ResResultBody::Rows(r), next)),
        }
    } else if kind == RESULT_SET_KEYSPACE {
        match read_string(bytes, p) {
            Err(e) => Err(e),
            Ok((k, next)) => Ok((ResResultBody::SetKeyspace(k), next)),
        }
    } else if kind == RESULT_PREPARED {
        match read_prepared(bytes, p) {
            Err(e) => Err(e),
            Ok((b, next)) => Ok((ResResultBody::Prepared(b), next)),
        }
    } else if kind == RESULT_SCHEMA_CHANGE {
        match read_schema_change(bytes, p) {
            Err(e) => Err(e),
            Ok((c, next)) => Ok((ResResultBody::SchemaChange(c), next)),
        }
    } else {
        Err(Error::Decode(Context::UnknownCode))
    }
}

/// The entries in `v` as mathematical values.
pub open spec fn entry_views(v: Seq<(String, Vec<String>)>) -> Seq<(Seq<char>, Seq<Seq<char>>)> {
    v.map_values(|e: (String, Vec<String>)| (e.0@, texts(e.1@)))
}

/// The `count` entries of a `[string multimap]` from `pos` on: for each a `[string]`
/// key and a `[string list]` of values.
pub open spec fn entries_at(s: Seq<u8>, pos: nat, count: nat) -> Result<
    (Seq<(Seq<char>, Seq<Seq<char>>)>, nat),
    Error,
>
    decreases count,
{
    if count == 0 {
        Ok((Seq::empty(), pos))
    } else {
        match string_at(s, pos) {
            Err(e) => Err(e),
            Ok((key, p)) => match string_list_at(s, p) {
                Err(e) => Err(e),
                Ok((values, p1)) => match entries_at(s, p1, (count - 1) as nat) {
                    Err(e) => Err(e),
                    Ok((rest, next)) => Ok((seq![(key, values)] + rest, next)),
                },
            },
        }
    }
}

/// The `[string multimap]` at `pos`: a `[short]` count, then that many entries.
pub open spec fn multimap_at(s: Seq<u8>, pos: nat) -> Result<
    (Seq<(Seq<char>, Seq<Seq<char>>)>, nat),
    Error,
> {
    match unsigned_at(s, pos, 2) {
        Err(e) => Err(e),
        Ok((n, p)) => entries_at(s, p, n),
    }
}

/// Reads `count` entries of a `[string multimap]` from `pos` on.
pub fn read_entries(bytes: &[u8], pos: usize, count: usize) -> (r: Result<
    (Vec<(String, Vec<String>)>, usize),
    Error,
>)
    requires
        pos <= bytes@.len(),
    ensures
        match r {
            Ok((v, next)) => entries_at(bytes@, pos as nat, count as nat) == Ok::<
                (Seq<(Seq<char>, Seq<Seq<char>>)>, nat),
                Error,
            >((entry_views(v@), next as nat)) && pos <= next <= bytes@.len(),
            Err(e) => entries_at(bytes@, pos as nat, count as nat) == Err::<
                (Seq<(Seq<char>, Seq<Seq<char>>)>, nat),
                Error,
            >(e),
        },
{
    let mut acc: Vec<(String, Vec<String>)> = Vec::new();
    let mut p: usize = pos;
    let mut i: usize = 0;
    proof {
        assert(entry_views(acc@) =~= Seq::empty());
        match entries_at(bytes@, pos as nat, count as nat) {
            Ok((rest, q)) => {
                assert(entry_views(acc@) + rest =~= rest);
            },
            Err(_) => {},
        }
    }
    while i < count
        invariant
            i <= count,
            pos <= p <= bytes@.len(),
            acc@.len() == i,
            entries_at(bytes@, pos as nat, count as nat) == match entries_at(
                bytes@,
                p as nat,
                (count - i) as nat,
            ) {
                Ok((rest, q)) => Ok::<(Seq<(Seq<char>, Seq<Seq<char>>)>, nat), Error>(
                    (entry_views(acc@) + rest, q),
                ),
                Err(e) => Err::<(Seq<(Seq<char>, Seq<Seq<char>>)>, nat), Error>(e),
            },
        decreases count - i,
    {
        let ghost before = acc@;
        let (key, p1) = match read_string(bytes, p) {
            Ok(x) => x,
            Err(e) => {
                return Err(e);
            },
        };
        match read_string_list(bytes, p1) {
            Err(e) => {
                return Err(e);
            },
            Ok((values, next)) => {
                proof {
                    match entries_at(bytes@, next as nat, (count - i - 1) as nat) {
                        Ok((rest, q)) => {
                            assert(entry_views(before.push((key, values))) =~= entry_views(before)
                                + seq![(key@, texts(values@))]);
                            assert(entry_views(before) + (seq![(key@, texts(values@))] + rest)
                                =~= entry_views(before.push((key, values))) + rest);
                        },
                        Err(_) => {},
                    }
                }
                acc.push((key, values));
                p = next;
                i = i + 1;
            },
        }
    }
    proof {
        assert(entry_views(acc@) + Seq::<(Seq<char>, Seq<Seq<char>>)>::empty() =~= entry_views(
            acc@,
        ));
    }
    Ok((acc, p))
}

/// Reads a `[string multimap]` at `pos`.
pub fn read_multimap(bytes: &[u8], pos: usize) -> (r: Result<
    (Vec<(String, Vec<String>)>, usize),
    Error,
>)
    requires
        pos <= bytes@.len(),
    ensures
        match r {
            Ok((v, next)) => multimap_at(bytes@, pos as nat) == Ok::<
                (Seq<(Seq<char>, Seq<Seq<char>>)>, nat),
                Error,
            >((entry_views(v@), next as nat)) && pos < next <= bytes@.len(),
            Err(e) => multimap_at(bytes@, pos as nat) == Err::<
                (Seq<(Seq<char>, Seq<Seq<char>>)>, nat),
                Error,
            >(e),
        },
{
    match read_short(bytes, pos) {
        Err(e) => Err(e),
        Ok((n, p)) => read_entries(bytes, p, n as usize),
    }
}

/// The body of a frame that a server sends.
#[derive(Debug)]
pub enum ResponseBody {
    Error(ErrorBody),
    Ready,
    /// The class name of the authenticator that the server asks for.
    Authenticate(String),
    /// The options that the server supports, each with its values.
    Supported(Vec<(String, Vec<String>)>),
    Result(ResResultBody),
    Event(ServerEvent),
    AuthChallenge(CBytes),
    AuthSuccess(CBytes),
}

/// The body of a frame that a server sends, as a mathematical value.
pub enum ResponseView {
    Error(ErrorBodyView),
    Ready,
    Authenticate(Seq<char>),
    Supported(Seq<(Seq<char>, Seq<Seq<char>>)>),
    Result(ResultView),
    Event(EventView),
    AuthChallenge(Option<Seq<u8>>),
    AuthSuccess(Option<Seq<u8>>),
}

impl ResponseView {
    /// Whether a result, where this body is one, is well formed.
    pub open spec fn well_formed(self) -> bool {
        match self {
            ResponseView::Result(r) => r.well_formed(),
            _ => true,
        }
    }
}

impl View for ResponseBody {
    type V = ResponseView;

    open spec fn view(&self) -> ResponseView {
        match self {
            ResponseBody::Error(e) => ResponseView::Error(e@),
            ResponseBody::Ready => ResponseView::Ready,
            ResponseBody::Authenticate(a) => ResponseView::Authenticate(a@),
            ResponseBody::Supported(o) => ResponseView::Supported(entry_views(o@)),
            ResponseBody::Result(r) => ResponseView::Result(r@),
            ResponseBody::Event(ev) => ResponseView::Event(ev@),
            ResponseBody::AuthChallenge(t) => ResponseView::AuthChallenge(t@),
            ResponseBody::AuthSuccess(t) => ResponseView::AuthSuccess(t@),
        }
    }
}

/// What a body of the opcode `opcode` holds from its start, and where that ends. The
/// opcodes of requests have no place in what a server sends.
pub open spec fn body_at(s: Seq<u8>, opcode: Opcode) -> Result<(ResponseView, nat), Error> {
    match opcode {
        Opcode::Error => match error_at(s, 0) {
            Err(e) => Err(e),
            Ok((b, next)) => Ok((ResponseView::Error(b), next)),
        },
        Opcode::Ready => Ok((ResponseView::Ready, 0)),
        Opcode::Authenticate => match string_at(s, 0) {
            Err(e) => Err(e),
            Ok((a, next)) => Ok((ResponseView::Authenticate(a), next)),
        },
        Opcode::Supported => match multimap_at(s, 0) {
            Err(e) => Err(e),
            Ok((o, next)) => Ok((ResponseView::Supported(o), next)),
        },
        Opcode::Result => match result_at(s, 0) {
            Err(e) => Err(e),
            Ok((r, next)) => Ok((ResponseView::Result(r), next)),
        },
        Opcode::Event => match event_at(s, 0) {
            Err(e) => Err(e),
            Ok((ev, next)) => Ok((ResponseView::Event(ev), next)),
        },
        Opcode::AuthChallenge => match bytes_at(s, 0) {
            Err(e) => Err(e),
            Ok((t, next)) => Ok((ResponseView::AuthChallenge(t), next)),
        },
        Opcode::AuthSuccess => match bytes_at(s, 0) {
            Err(e) => Err(e),
            Ok((t, next)) => Ok((ResponseView::AuthSuccess(t), next)),
        },
        _ => Err(Error::Decode(Context::Opcode)),
    }
}

/// What a body of the opcode `opcode` holds. The body must hold it and nothing more.
pub open spec fn body_of(s: Seq<u8>, opcode: Opcode) -> Result<ResponseView, Error> {
    match body_at(s, opcode) {
        Err(e) => Err(e),
        Ok((b, next)) => if next == s.len() {
            Ok(b)
        } else {
            Err(Error::Decode(Context::Trailing))
        },
    }
}

impl ResponseBody {
    fn read(bytes: &[u8], opcode: &Opcode) -> (r: Result<(ResponseBody, usize), Error>)
        ensures
            match r {
                Ok((b, next)) => body_at(bytes@, *opcode) == Ok::<(ResponseView, nat), Error>(
                    (b@, next as nat),
                ) && next <= bytes@.len() && b@.well_formed(),
                Err(e) => body_at(bytes@, *opcode) == Err::<(ResponseView, nat), Error>(e),
            },
    {
        match opcode {
            Opcode::Error => match read_error(bytes, 0) {
                Err(e) => Err(e),
                Ok((b, next)) => Ok((ResponseBody::Error(b), next)),
            },
            Opcode::Ready => Ok((ResponseBody::Ready, 0)),
            Opcode::Authenticate => match read_string(bytes, 0) {
                Err(e) => Err(e),
                Ok((a, next)) => Ok((ResponseBody::Authenticate(a), next)),
            },
            Opcode::Supported => match read_multimap(bytes, 0) {
                Err(e) => Err(e),
                Ok((o, next)) => Ok((ResponseBody::Supported(o), next)),
            },
            Opcode::Result => match read_result(bytes, 0) {
                Err(e) => Err(e),
                Ok((r, next)) => Ok((ResponseBody::Result(r), next)),
            },
            Opcode::Event => match read_event(bytes, 0) {
                Err(e) => Err(e),
                Ok((ev, next)) => Ok((ResponseBody::Event(ev), next)),
            },
            Opcode::AuthChallenge => match read_bytes(bytes, 0) {
                Err(e) => Err(e),
                Ok((t, next)) => Ok((ResponseBody::AuthChallenge(t), next)),
            },
            Opcode::AuthSuccess => match read_bytes(bytes, 0) {
                Err(e) => Err(e),
                Ok((t, next)) => Ok((ResponseBody::AuthSuccess(t), next)),
            },
            _ => Err(Error::Decode(Context::Opcode)),
        }
    }

    /// Reads the body of a frame of the opcode `opcode`. A result that comes out is
    /// well formed.
    pub fn from(bytes: &[u8], opcode: &Opcode) -> (r: Result<ResponseBody, Error>)
        ensures
            match r {
                Ok(b) => body_of(bytes@, *opcode) == Ok::<ResponseView, Error>(b@)
                    && b@.well_formed(),
                Err(e) => body_of(bytes@, *opcode) == Err::<ResponseView, Error>(e),
            },
    {
        match ResponseBody::read(bytes, opcode) {
            Err(e) => Err(e),
            Ok((b, next)) => {
                if next == bytes.len() {
                    Ok(b)
                } else {
                    Err(Error::Decode(Context::Trailing))
                }
            },
        }
    }
}

impl Frame {
    /// What the body of this frame holds, by its opcode. A result that comes out is
    /// well formed: its rows hold one value for each column of each row, and the types
    /// of its columns hold what their codes call for.
    pub fn get_body(&self) -> (r: Result<ResponseBody, Error>)
        ensures
            match r {
                Ok(b) => body_of(self@.body, self@.opcode) == Ok::<ResponseView, Error>(b@)
                    && b@.well_formed(),
                Err(e) => body_of(self@.body, self@.opcode) == Err::<ResponseView, Error>(e),
            },
    {
        ResponseBody::from(self.body.as_slice(), &self.opcode)
    }
}

} // verus!
