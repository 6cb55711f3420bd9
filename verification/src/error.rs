//! What can go wrong while bytes are turned into values.

use vstd::prelude::*;
use crate::column::ColType;

verus! {

/// The part of the input at which decoding failed.
#[derive(Debug, Clone, Copy, PartialEq, Eq, Structural)]
pub enum Context {
    /// Fewer bytes than a frame header has.
    Header,
    /// A version byte that is unknown, or that belongs to the other side.
    Version,
    /// A flag field of the wrong width.
    Flag,
    /// An opcode byte that the protocol does not define.
    Opcode,
    /// A length that is negative where it may not be, or too large.
    Length,
    /// A body whose size differs from what its header announces.
    Body,
    /// Input that ends before a value is complete.
    Truncated,
    /// Bytes left over after a value that should have used them all.
    Trailing,
    /// Bytes that are no UTF-8 text.
    Utf8,
    /// A code that no member of an enumeration has.
    UnknownCode,
    /// A value of the wrong width for its declared type.
    Width,
    /// A column type whose description is missing or of the wrong shape.
    Metadata,
}

/// The native forms in which a value can be asked for.
#[derive(Debug, Clone, Copy, PartialEq, Eq, Structural)]
pub enum NativeKind {
    Blob,
    Text,
    Boolean,
    Bigint,
    Int,
    Date,
    Smallint,
    Tinyint,
    Float,
    Double,
    Decimal,
    Varint,
    Inet,
    Uuid,
    List,
    Pairs,
    Record,
    Tuple,
    Duration,
}

/// Why an operation of this library failed.
#[derive(Debug, Clone, Copy, PartialEq, Eq, Structural)]
pub enum Error {
    /// The bytes are no well-formed value of the protocol.
    Decode(Context),
    /// A value was asked for in a native form that its declared type does not have.
    InvalidProjection { expected: NativeKind, actual: ColType },
    /// A row or a column was asked for that the result does not have.
    OutOfRange,
    /// The transport failed to read or to write.
    Transport,
    /// The server answered with an error.
    Server,
    /// The session is in no state for what was asked of it.
    ProtocolState,
}

} // verus!
