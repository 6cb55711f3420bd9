//! The body of an ERROR frame: a code, a message, and what the code adds to them.

use vstd::prelude::*;
use crate::consistency::{consistency_at, read_consistency, Consistency};
use crate::endian::copy_range;
use crate::error::Error;
use crate::primitive::{read_byte, read_int, signed_at, unsigned_at};
use crate::wire::{
    read_short_bytes, read_string, read_string_list, short_bytes_at, string_at, string_list_at,
    texts,
};

verus! {

/// The code of an error for which not enough replicas were alive.
pub const UNAVAILABLE: i32 = 0x1000;

/// The code of a write that timed out.
pub const WRITE_TIMEOUT: i32 = 0x1100;

/// The code of a read that timed out.
pub const READ_TIMEOUT: i32 = 0x1200;

/// The code of a read that failed on some replicas.
pub const READ_FAILURE: i32 = 0x1300;

/// The code of a failure inside a user-defined function.
pub const FUNCTION_FAILURE: i32 = 0x1400;

/// The code of a write that failed on some replicas.
pub const WRITE_FAILURE: i32 = 0x1500;

/// The code of an attempt to create what exists already.
pub const ALREADY_EXISTS: i32 = 0x2400;

/// The code of an attempt to execute a statement that the server has not prepared.
pub const UNPREPARED: i32 = 0x2500;

/// How many replicas answered, and how many had to.
#[derive(Debug, Clone, Copy, PartialEq, Eq, Structural)]
pub struct Answers {
    pub cl: Consistency,
    pub received: i32,
    pub blockfor: i32,
}

/// What the code of an error adds to its message.
#[derive(Debug)]
pub enum AdditionalErrorInfo {
    Unavailable { cl: Consistency, required: i32, alive: i32 },
    WriteTimeout { answers: Answers, write_type: String },
    ReadTimeout { answers: Answers, data_present: u8 },
    ReadFailure { answers: Answers, num_failures: i32, data_present: u8 },
    FunctionFailure { keyspace: String, function: String, arg_types: Vec<String> },
    WriteFailure { answers: Answers, num_failures: i32, write_type: String },
    AlreadyExists { ks: String, table: String },
    Unprepared { id: Vec<u8> },
    /// Any other code: what follows the message, as it came.
    Other { raw: Vec<u8> },
}

/// What the code of an error adds to its message, as a mathematical value.
pub enum InfoView {
    Unavailable { cl: Consistency, required: i32, alive: i32 },
    WriteTimeout { answers: Answers, write_type: Seq<char> },
    ReadTimeout { answers: Answers, data_present: u8 },
    ReadFailure { answers: Answers, num_failures: i32, data_present: u8 },
    FunctionFailure { keyspace: Seq<char>, function: Seq<char>, arg_types: Seq<Seq<char>> },
    WriteFailure { answers: Answers, num_failures: i32, write_type: Seq<char> },
    AlreadyExists { ks: Seq<char>, table: Seq<char> },
    Unprepared { id: Seq<u8> },
    Other { raw: Seq<u8> },
}

impl View for AdditionalErrorInfo {
    type V = InfoView;

    open spec fn view(&self) -> InfoView {
        match self {
            AdditionalErrorInfo::Unavailable { cl, required, alive } => InfoView::Unavailable {
                cl: *cl,
                required: *required,
                alive: *alive,
            },
            AdditionalErrorInfo::WriteTimeout { answers, write_type } => InfoView::WriteTimeout {
                answers: *answers,
                write_type: write_type@,
            },
            AdditionalErrorInfo::ReadTimeout { answers, data_present } => InfoView::ReadTimeout {
                answers: *answers,
                data_present: *data_present,
            },
            AdditionalErrorInfo::ReadFailure {
                answers,
                num_failures,
                data_present,
            } => InfoView::ReadFailure {
                answers: *answers,
                num_failures: *num_failures,
                data_present: *data_present,
            },
            AdditionalErrorInfo::FunctionFailure {
                keyspace,
                function,
                arg_types,
            } => InfoView::FunctionFailure {
                keyspace: keyspace@,
                function: function@,
                arg_types: texts(arg_types@),
            },
            AdditionalErrorInfo::WriteFailure {
                answers,
                num_failures,
                write_type,
            } => InfoView::WriteFailure {
                answers: *answers,
                num_failures: *num_failures,
                write_type: write_type@,
            },
            AdditionalErrorInfo::AlreadyExists { ks, table } => InfoView::AlreadyExists {
                ks: ks@,
                table: table@,
            },
            AdditionalErrorInfo::Unprepared { id } => InfoView::Unprepared { id: id@ },
            AdditionalErrorInfo::Other { raw } => InfoView::Other { raw: raw@ },
        }
    }
}

/// What the server says of an error.
#[derive(Debug)]
pub struct ErrorBody {
    pub error_code: i32,
    pub message: String,
    pub additional_info: AdditionalErrorInfo,
}

/// What the server says of an error, as a mathematical value.
pub struct ErrorBodyView {
    pub error_code: i32,
    pub message: Seq<char>,
    pub additional_info: InfoView,
}

impl View for ErrorBody {
    type V = ErrorBodyView;

    open spec fn view(&self) -> ErrorBodyView {
        ErrorBodyView {
            error_code: self.error_code,
            message: self.message@,
            additional_info: self.additional_info@,
        }
    }
}

/// A consistency level and two counts of replicas at `pos`, the counts as `[int]`s.
pub open spec fn answers_at(s: Seq<u8>, pos: nat) -> Result<(Answers, nat), Error> {
    match consistency_at(s, pos) {
        Err(e) => Err(e),
        Ok((cl, p1)) => match signed_at(s, p1, 4) {
            Err(e) => Err(e),
            Ok((received, p2)) => match signed_at(s, p2, 4) {
                Err(e) => Err(e),
                Ok((blockfor, next)) => Ok(
                    (Answers { cl, received: received as i32, blockfor: blockfor as i32 }, next),
                ),
            },
        },
    }
}

/// What an error adds where not enough replicas were alive: the consistency level, and
/// how many replicas were required and how many alive.
pub open spec fn unavailable_at(s: Seq<u8>, pos: nat) -> Result<(InfoView, nat), Error> {
    match answers_at(s, pos) {
        Err(e) => Err(e),
        Ok((a, next)) => Ok(
            (InfoView::Unavailable { cl: a.cl, required: a.received, alive: a.blockfor }, next),
        ),
    }
}

/// What an error adds where a write timed out: the answers, and the kind of write as a
/// `[string]`.
pub open spec fn write_timeout_at(s: Seq<u8>, pos: nat) -> Result<(InfoView, nat), Error> {
    match answers_at(s, pos) {
        Err(e) => Err(e),
        Ok((answers, p)) => match string_at(s, p) {
            Err(e) => Err(e),
            Ok((write_type, next)) => Ok((InfoView::WriteTimeout { answers, write_type }, next)),
        },
    }
}

/// What an error adds where a read timed out: the answers, and one byte that says
/// whether the data came.
pub open spec fn read_timeout_at(s: Seq<u8>, pos: nat) -> Result<(InfoView, nat), Error> {
    match answers_at(s, pos) {
        Err(e) => Err(e),
        Ok((answers, p)) => match unsigned_at(s, p, 1) {
            Err(e) => Err(e),
            Ok((present, next)) => Ok(
                (InfoView::ReadTimeout { answers, data_present: present as u8 }, next),
            ),
        },
    }
}

/// What an error adds where a read failed: the answers, the number of failures as an
/// `[int]`, and one byte that says whether the data came.
pub open spec fn read_failure_at(s: Seq<u8>, pos: nat) -> Result<(InfoView, nat), Error> {
    match answers_at(s, pos) {
        Err(e) => Err(e),
        Ok((answers, p)) => match signed_at(s, p, 4) {
            Err(e) => Err(e),
            Ok((failures, p1)) => match unsigned_at(s, p1, 1) {
                Err(e) => Err(e),
                Ok((present, next)) => Ok(
                    (
                        InfoView::ReadFailure {
                            answers,
                            num_failures: failures as i32,
                            data_present: present as u8,
                        },
                        next,
                    ),
                ),
            },
        },
    }
}

/// What an error adds where a function failed: its keyspace and its name, each as a
/// `[string]`, and the types of its arguments as a `[string list]`.
pub open spec fn function_failure_at(s: Seq<u8>, pos: nat) -> Result<(InfoView, nat), Error> {
    match string_at(s, pos) {
        Err(e) => Err(e),
        Ok((keyspace, p)) => match string_at(s, p) {
            Err(e) => Err(e),
            Ok((function, p1)) => match string_list_at(s, p1) {
                Err(e) => Err(e),
                Ok((arg_types, next)) => Ok(
                    (InfoView::FunctionFailure { keyspace, function, arg_types }, next),
                ),
            },
        },
    }
}

/// What an error adds where a write failed: the answers, the number of failures as an
/// `[int]`, and the kind of write as a `[string]`.
pub open spec fn write_failure_at(s: Seq<u8>, pos: nat) -> Result<(InfoView, nat), Error> {
    match answers_at(s, pos) {
        Err(e) => Err(e),
        Ok((answers, p)) => match signed_at(s, p, 4) {
            Err(e) => Err(e),
            Ok((failures, p1)) => match string_at(s, p1) {
                Err(e) => Err(e),
                Ok((write_type, next)) => Ok(
                    (
                        InfoView::WriteFailure { answers, num_failures: failures as i32, write_type },
                        next,
                    ),
                ),
            },
        },
    }
}

/// What an error adds where something exists already: its keyspace and its table, each
/// as a `[string]`.
pub open spec fn already_exists_at(s: Seq<u8>, pos: nat) -> Result<(InfoView, nat), Error> {
    match string_at(s, pos) {
        Err(e) => Err(e),
        Ok((ks, p)) => match string_at(s, p) {
            Err(e) => Err(e),
            Ok((table, next)) => Ok((InfoView::AlreadyExists { ks, table }, next)),
        },
    }
}

/// What an error adds where a statement is not prepared: its id as a `[short bytes]`.
pub open spec fn unprepared_at(s: Seq<u8>, pos: nat) -> Result<(InfoView, nat), Error> {
    match short_bytes_at(s, pos) {
        Err(e) => Err(e),
        Ok((id, next)) => Ok((InfoView::Unprepared { id }, next)),
    }
}

/// What the code `code` adds to an error, at `pos`. For a code that adds nothing
/// known, this is whatever is left of the input.
pub open spec fn info_at(s: Seq<u8>, pos: nat, code: i32) -> Result<(InfoView, nat), Error> {
    if code == UNAVAILABLE {
        unavailable_at(s, pos)
    } else if code == WRITE_TIMEOUT {
        write_timeout_at(s, pos)
    } else if code == READ_TIMEOUT {
        read_timeout_at(s, pos)
    } else if code == READ_FAILURE {
        read_failure_at(s, pos)
    } else if code == FUNCTION_FAILURE {
        function_failure_at(s, pos)
    } else if code == WRITE_FAILURE {
        write_failure_at(s, pos)
    } else if code == ALREADY_EXISTS {
        already_exists_at(s, pos)
    } else if code == UNPREPARED {
        unprepared_at(s, pos)
    } else {
        Ok((InfoView::Other { raw: s.subrange(pos as int, s.len() as int) }, s.len()))
    }
}

/// What the server says of an error, at `pos`: the code as an `[int]`, the message as
/// a `[string]`, and what the code adds.
#[verifier::opaque]
pub open spec fn error_at(s: Seq<u8>, pos: nat) -> Result<(ErrorBodyView, nat), Error> {
    match signed_at(s, pos, 4) {
        Err(e) => Err(e),
        Ok((code, p)) => match string_at(s, p) {
            Err(e) => Err(e),
            Ok((message, p1)) => match info_at(s, p1, code as i32) {
                Err(e) => Err(e),
                Ok((additional_info, next)) => Ok(
                    (ErrorBodyView { error_code: code as i32, message, additional_info }, next),
                ),
            },
        },
    }
}

/// Reads a consistency level and two counts of replicas at `pos`.
fn read_answers(bytes: &[u8], pos: usize) -> (r: Result<(Answers, usize), Error>)
    requires
        pos <= bytes@.len(),
    ensures
        match r {
            Ok((a, next)) => answers_at(bytes@, pos as nat) == Ok::<(Answers, nat), Error>(
                (a, next as nat),
            ) && pos < next <= bytes@.len(),
            Err(e) => answers_at(bytes@, pos as nat) == Err::<(Answers, nat), Error>(e),
        },
{
    let (cl, p1) = match read_consistency(bytes, pos) {
        Ok(x) => x,
        Err(e) => {
            return Err(e);
        },
    };
    let (received, p2) = match read_int(bytes, p1) {
        Ok(x) => x,
        Err(e) => {
            return Err(e);
        },
    };
    match read_int(bytes, p2) {
        Ok((blockfor, next)) => Ok((Answers { cl, received, blockfor }, next)),
        Err(e) => Err(e),
    }
}

/// Reads what an error adds where not enough replicas were alive.
fn read_unavailable(bytes: &[u8], pos: usize) -> (r: Result<(AdditionalErrorInfo, usize), Error>)
    requires
        pos <= bytes@.len(),
    ensures
        match r {
            Ok((i, next)) => unavailable_at(bytes@, pos as nat) == Ok::<(InfoView, nat), Error>(
                (i@, next as nat),
            ) && pos <= next <= bytes@.len(),
            Err(e) => unavailable_at(bytes@, pos as nat) == Err::<(InfoView, nat), Error>(e),
        },
{
    match read_answers(bytes, pos) {
        Err(e) => Err(e),
        Ok((a, next)) => Ok(
            (
                AdditionalErrorInfo::Unavailable {
                    cl: a.cl,
                    required: a.received,
                    alive: a.blockfor,
                },
                next,
            ),
        ),
    }
}

/// Reads what an error adds where a write timed out.
fn read_write_timeout(bytes: &[u8], pos: usize) -> (r: Result<(AdditionalErrorInfo, usize), Error>)
    requires
        pos <= bytes@.len(),
    ensures
        match r {
            Ok((i, next)) => write_timeout_at(bytes@, pos as nat) == Ok::<(InfoView, nat), Error>(
                (i@, next as nat),
            ) && pos <= next <= bytes@.len(),
            Err(e) => write_timeout_at(bytes@, pos as nat) == Err::<(InfoView, nat), Error>(e),
        },
{
    let (answers, p) = match read_answers(bytes, pos) {
        Ok(x) => x,
        Err(e) => {
            return Err(e);
        },
    };
    match read_string(bytes, p) {
        Err(e) => Err(e),
        Ok((write_type, next)) => Ok(
            (AdditionalErrorInfo::WriteTimeout { answers, write_type }, next),
        ),
    }
}

/// Reads what an error adds where a read timed out.
fn read_read_timeout(bytes: &[u8], pos: usize) -> (r: Result<(AdditionalErrorInfo, usize), Error>)
    requires
        pos <= bytes@.len(),
    ensures
        match r {
            Ok((i, next)) => read_timeout_at(bytes@, pos as nat) == Ok::<(InfoView, nat), Error>(
                (i@, next as nat),
            ) && pos <= next <= bytes@.len(),
            Err(e) => read_timeout_at(bytes@, pos as nat) == Err::<(InfoView, nat), Error>(e),
        },
{
    let (answers, p) = match read_answers(bytes, pos) {
        Ok(x) => x,
        Err(e) => {
            return Err(e);
        },
    };
    match read_byte(bytes, p) {
        Err(e) => Err(e),
        Ok((data_present, next)) => Ok(
            (AdditionalErrorInfo::ReadTimeout { answers, data_present }, next),
        ),
    }
}

/// Reads what an error adds where a read failed.
fn read_read_failure(bytes: &[u8], pos: usize) -> (r: Result<(AdditionalErrorInfo, usize), Error>)
    requires
        pos <= bytes@.len(),
    ensures
        match r {
            Ok((i, next)) => read_failure_at(bytes@, pos as nat) == Ok::<(InfoView, nat), Error>(
                (i@, next as nat),
            ) && pos <= next <= bytes@.len(),
            Err(e) => read_failure_at(bytes@, pos as nat) == Err::<(InfoView, nat), Error>(e),
        },
{
    let (answers, p) = match read_answers(bytes, pos) {
        Ok(x) => x,
        Err(e) => {
            return Err(e);
        },
    };
    let (num_failures, p1) = match read_int(bytes, p) {
        Ok(x) => x,
        Err(e) => {
            return Err(e);
        },
    };
    match read_byte(bytes, p1) {
        Err(e) => Err(e),
        Ok((data_present, next)) => Ok(
            (AdditionalErrorInfo::ReadFailure { answers, num_failures, data_present }, next),
        ),
    }
}

/// Reads what an error adds where a function failed.
fn read_function_failure(bytes: &[u8], pos: usize) -> (r: Result<(AdditionalErrorInfo, usize), Error>)
    requires
        pos <= bytes@.len(),
    ensures
        match r {
            Ok((i, next)) => function_failure_at(bytes@, pos as nat) == Ok::<(InfoView, nat), Error>(
                (i@, next as nat),
            ) && pos <= next <= bytes@.len(),
            Err(e) => function_failure_at(bytes@, pos as nat) == Err::<(InfoView, nat), Error>(e),
        },
{
    let (keyspace, p) = match read_string(bytes, pos) {
        Ok(x) => x,
        Err(e) => {
            return Err(e);
        },
    };
    let (function, p1) = match read_string(bytes, p) {
        Ok(x) => x,
        Err(e) => {
            return Err(e);
        },
    };
    match read_string_list(bytes, p1) {
        Err(e) => Err(e),
        Ok((arg_types, next)) => Ok(
            (AdditionalErrorInfo::FunctionFailure { keyspace, function, arg_types }, next),
        ),
    }
}

/// Reads what an error adds where a write failed.
fn read_write_failure(bytes: &[u8], pos: usize) -> (r: Result<(AdditionalErrorInfo, usize), Error>)
    requires
        pos <= bytes@.len(),
    ensures
        match r {
            Ok((i, next)) => write_failure_at(bytes@, pos as nat) == Ok::<(InfoView, nat), Error>(
                (i@, next as nat),
            ) && pos <= next <= bytes@.len(),
            Err(e) => write_failure_at(bytes@, pos as nat) == Err::<(InfoView, nat), Error>(e),
        },
{
    let (answers, p) = match read_answers(bytes, pos) {
        Ok(x) => x,
        Err(e) => {
            return Err(e);
        },
    };
    let (num_failures, p1) = match read_int(bytes, p) {
        Ok(x) => x,
        Err(e) => {
            return Err(e);
        },
    };
    match read_string(bytes, p1) {
        Err(e) => Err(e),
        Ok((write_type, next)) => Ok(
            (AdditionalErrorInfo::WriteFailure { answers, num_failures, write_type }, next),
        ),
    }
}

/// Reads what an error adds where something exists already.
fn read_already_exists(bytes: &[u8], pos: usize) -> (r: Result<(AdditionalErrorInfo, usize), Error>)
    requires
        pos <= bytes@.len(),
    ensures
        match r {
            Ok((i, next)) => already_exists_at(bytes@, pos as nat) == Ok::<(InfoView, nat), Error>(
                (i@, next as nat),
            ) && pos <= next <= bytes@.len(),
            Err(e) => already_exists_at(bytes@, pos as nat) == Err::<(InfoView, nat), Error>(e),
        },
{
    let (ks, p) = match read_string(bytes, pos) {
        Ok(x) => x,
        Err(e) => {
            return Err(e);
        },
    };
    match read_string(bytes, p) {
        Err(e) => Err(e),
        Ok((table, next)) => Ok((AdditionalErrorInfo::AlreadyExists { ks, table }, next)),
    }
}

/// Reads what an error adds where a statement is not prepared.
fn read_unprepared(bytes: &[u8], pos: usize) -> (r: Result<(AdditionalErrorInfo, usize), Error>)
    requires
        pos <= bytes@.len(),
    ensures
        match r {
            Ok((i, next)) => unprepared_at(bytes@, pos as nat) == Ok::<(InfoView, nat), Error>(
                (i@, next as nat),
            ) && pos <= next <= bytes@.len(),
            Err(e) => unprepared_at(bytes@, pos as nat) == Err::<(InfoView, nat), Error>(e),
        },
{
    match read_short_bytes(bytes, pos) {
        Err(e) => Err(e),
        Ok((id, next)) => Ok((AdditionalErrorInfo::Unprepared { id }, next)),
    }
}

/// Reads what the code `code` adds to an error, at `pos`.
fn read_info(bytes: &[u8], pos: usize, code: i32) -> (r: Result<
    (AdditionalErrorInfo, usize),
    Error,
>)
    requires
        pos <= bytes@.len(),
    ensures
        match r {
            Ok((i, next)) => info_at(bytes@, pos as nat, code) == Ok::<(InfoView, nat), Error>(
                (i@, next as nat),
            ) && pos <= next <= bytes@.len(),
            Err(e) => info_at(bytes@, pos as nat, code) == Err::<(InfoView, nat), Error>(e),
        },
{
    if code == UNAVAILABLE {
        read_unavailable(bytes, pos)
    } else if code == WRITE_TIMEOUT {
        read_write_timeout(bytes, pos)
    } else if code == READ_TIMEOUT {
        read_read_timeout(bytes, pos)
    } else if code == READ_FAILURE {
        read_read_failure(bytes, pos)
    } else if code == FUNCTION_FAILURE {
        read_function_failure(bytes, pos)
    } else if code == WRITE_FAILURE {
        read_write_failure(bytes, pos)
    } else if code == ALREADY_EXISTS {
        read_already_exists(bytes, pos)
    } else if code == UNPREPARED {
        read_unprepared(bytes, pos)
    } else {
        let raw = copy_range(bytes, pos, bytes.len());
        Ok((AdditionalErrorInfo::Other { raw }, bytes.len()))
    }
}

/// Reads what the server says of an error, at `pos`.
pub fn read_error(bytes: &[u8], pos: usize) -> (r: Result<(ErrorBody, usize), Error>)
    requires
        pos <= bytes@.len(),
    ensures
        match r {
            Ok((b, next)) => error_at(bytes@, pos as nat) == Ok::<(ErrorBodyView, nat), Error>(
                (b@, next as nat),
            ) && pos < next <= bytes@.len(),
            Err(e) => error_at(bytes@, pos as nat) == Err::<(ErrorBodyView, nat), Error>(e),
        },
{
    reveal(error_at);
    let (error_code, p) = match read_int(bytes, pos) {
        Ok(x) => x,
        Err(e) => {
            return Err(e);
        },
    };
    let (message, p1) = match read_string(bytes, p) {
        Ok(x) => x,
        Err(e) => {
            return Err(e);
        },
    };
    match read_info(bytes, p1, error_code) {
        Err(e) => Err(e),
        Ok((additional_info, next)) => Ok(
            (ErrorBody { error_code, message, additional_info }, next),
        ),
    }
}

} // verus!
