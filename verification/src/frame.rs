//! Frames: the nine-byte header and the body that follows it.

use vstd::prelude::*;
use vstd::slice::slice_subrange;
use crate::endian::{
    append, be_bytes, be_value, copy_range, from_n_bytes, i16_of_u16, lemma_be_bytes_len,
    lemma_be_round_trip, lemma_be_value_bound, lemma_pow256_values, lemma_signed_round_trip,
    signed_of, to_n_bytes, u16_of_i16, unsigned_of,
};
use crate::error::Context;
use crate::error::Error;

verus! {

/// Number of version bytes in a header.
pub const VERSION_LEN: usize = 1;

/// Number of flag bytes in a header.
pub const FLAG_LEN: usize = 1;

/// Number of opcode bytes in a header.
pub const OPCODE_LEN: usize = 1;

/// Number of stream bytes in a header.
pub const STREAM_LEN: usize = 2;

/// Number of bytes of the body's length in a header.
pub const LENGTH_LEN: usize = 4;

/// Number of bytes of a header.
pub const HEADER_LEN: usize = 9;

/// The longest body whose length a header can announce.
pub const MAX_BODY_LEN: usize = 0x7fff_ffff;

/// The side of the conversation that a frame comes from.
#[derive(Debug, Clone, Copy, PartialEq, Eq, Structural)]
pub enum Version {
    Request,
    Response,
}

impl Version {
    /// The byte that stands for this version.
    pub open spec fn byte(self) -> u8 {
        match self {
            Version::Request => 0x04,
            Version::Response => 0x84,
        }
    }

    /// The version that a byte stands for, if any.
    pub open spec fn of_byte(b: u8) -> Option<Version> {
        if b == 0x04 {
            Some(Version::Request)
        } else if b == 0x84 {
            Some(Version::Response)
        } else {
            None
        }
    }

    /// What `from` makes of a version field.
    pub open spec fn parsed(v: Seq<u8>) -> Result<Version, Error> {
        if v.len() == VERSION_LEN as nat && Self::of_byte(v[0]).is_some() {
            Ok(Self::of_byte(v[0]).unwrap())
        } else {
            Err(Error::Decode(Context::Version))
        }
    }

    pub fn as_byte(&self) -> (r: u8)
        ensures
            r == self.byte(),
    {
        match self {
            Version::Request => 0x04,
            Version::Response => 0x84,
        }
    }

    /// Reads a version field: one byte, 0x04 or 0x84.
    pub fn from(v: Vec<u8>) -> (r: Result<Version, Error>)
        ensures
            r == Self::parsed(v@),
    {
        if v.len() != VERSION_LEN {
            return Err(Error::Decode(Context::Version));
        }
        match v[0] {
            0x04 => Ok(Version::Request),
            0x84 => Ok(Version::Response),
            _ => Err(Error::Decode(Context::Version)),
        }
    }
}

/// One bit of a header's flag byte.
#[derive(Debug, Clone, Copy, PartialEq, Eq, Structural)]
pub enum Flag {
    Compression,
    Tracing,
    CustomPayload,
    Warning,
    /// Stands for every flag byte that is none of the four above.
    Ignore,
}

impl Flag {
    /// The byte that stands for this flag.
    pub open spec fn byte(self) -> u8 {
        match self {
            Flag::Compression => 0x01,
            Flag::Tracing => 0x02,
            Flag::CustomPayload => 0x04,
            Flag::Warning => 0x08,
            Flag::Ignore => 0x00,
        }
    }

    /// Whether this flag is one of the four that the protocol knows, and its bit is set
    /// in the flag byte `b`.
    pub open spec fn set_in(self, b: u8) -> bool {
        self != Flag::Ignore && b & self.byte() != 0
    }

    /// `s`, and after it the flag `x` where its bit is set in the flag byte `b`.
    pub open spec fn with(s: Seq<Flag>, b: u8, x: Flag) -> Seq<Flag> {
        if b & x.byte() != 0 {
            s.push(x)
        } else {
            s
        }
    }

    /// The known flags whose bits are set in the flag byte `b`, in the order of their
    /// bits. Bits that stand for no known flag give nothing.
    pub open spec fn all_in(b: u8) -> Seq<Flag> {
        Self::with(
            Self::with(
                Self::with(Self::with(Seq::empty(), b, Flag::Compression), b, Flag::Tracing),
                b,
                Flag::CustomPayload,
            ),
            b,
            Flag::Warning,
        )
    }

    /// What `from` makes of a flag field.
    pub open spec fn parsed(f: Seq<u8>) -> Result<Seq<Flag>, Error> {
        if f.len() == FLAG_LEN as nat {
            Ok(Self::all_in(f[0]))
        } else {
            Err(Error::Decode(Context::Flag))
        }
    }

    pub fn as_byte(&self) -> (r: u8)
        ensures
            r == self.byte(),
    {
        match self {
            Flag::Compression => 0x01,
            Flag::Tracing => 0x02,
            Flag::CustomPayload => 0x04,
            Flag::Warning => 0x08,
            Flag::Ignore => 0x00,
        }
    }

    /// The known flags whose bits are set in the flag byte `b`, in the order of their
    /// bits: a flag is among them exactly where its bit is set.
    pub fn get_collection(b: u8) -> (r: Vec<Flag>)
        ensures
            r@ == Self::all_in(b),
            forall|x: Flag| r@.contains(x) <==> x.set_in(b),
    {
        let mut out: Vec<Flag> = Vec::new();
        if b & 0x01 != 0 {
            out.push(Flag::Compression);
        }
        if b & 0x02 != 0 {
            out.push(Flag::Tracing);
        }
        if b & 0x04 != 0 {
            out.push(Flag::CustomPayload);
        }
        if b & 0x08 != 0 {
            out.push(Flag::Warning);
        }
        proof {
            lemma_all_in(b);
        }
        out
    }

    /// Reads a flag field of one byte: every known flag whose bit is set in it. Bits
    /// that stand for no known flag are ignored.
    pub fn from(f: Vec<u8>) -> (r: Result<Vec<Flag>, Error>)
        ensures
            match r {
                Ok(flags) => Self::parsed(f@) == Ok::<Seq<Flag>, Error>(flags@) && forall|x: Flag|
                    flags@.contains(x) <==> x.set_in(f@[0]),
                Err(e) => Self::parsed(f@) == Err::<Seq<Flag>, Error>(e),
            },
    {
        if f.len() != FLAG_LEN {
            return Err(Error::Decode(Context::Flag));
        }
        Ok(Flag::get_collection(f[0]))
    }
}

/// `s` with `x` after it holds what `s` holds, and `x`.
proof fn lemma_push_contains(s: Seq<Flag>, x: Flag, y: Flag)
    ensures
        s.push(x).contains(y) <==> s.contains(y) || y == x,
{
    let t = s.push(x);
    if s.contains(y) {
        let i = choose|i: int| 0 <= i < s.len() && s[i] == y;
        assert(t[i] == y);
    }
    if y == x {
        assert(t[s.len() as int] == y);
    }
    if t.contains(y) {
        let i = choose|i: int| 0 <= i < t.len() && t[i] == y;
        if i < s.len() {
            assert(s[i] == y);
        }
    }
}

/// After `with`, a sequence holds what it held before, and `x` where its bit is set.
proof fn lemma_with_contains(s: Seq<Flag>, b: u8, x: Flag, y: Flag)
    ensures
        Flag::with(s, b, x).contains(y) <==> s.contains(y) || (y == x && b & x.byte() != 0),
{
    lemma_push_contains(s, x, y);
}

/// A flag is among the flags of a flag byte exactly where it is one of the four known
/// flags and its bit is set in the byte.
pub proof fn lemma_all_in(b: u8)
    ensures
        forall|x: Flag| Flag::all_in(b).contains(x) <==> x.set_in(b),
{
    assert forall|x: Flag| Flag::all_in(b).contains(x) <==> x.set_in(b) by {
        let s0 = Seq::<Flag>::empty();
        let s1 = Flag::with(s0, b, Flag::Compression);
        let s2 = Flag::with(s1, b, Flag::Tracing);
        let s3 = Flag::with(s2, b, Flag::CustomPayload);
        assert(!s0.contains(x));
        lemma_with_contains(s0, b, Flag::Compression, x);
        lemma_with_contains(s1, b, Flag::Tracing, x);
        lemma_with_contains(s2, b, Flag::CustomPayload, x);
        lemma_with_contains(s3, b, Flag::Warning, x);
    }
}

/// The kind of a frame.
#[derive(Debug, Clone, Copy, PartialEq, Eq, Structural)]
pub enum Opcode {
    Error,
    Startup,
    Ready,
    Authenticate,
    Options,
    Supported,
    Query,
    Result,
    Prepare,
    Execute,
    Register,
    Event,
    Batch,
    AuthChallenge,
    AuthResponse,
    AuthSuccess,
}

impl Opcode {
    /// The byte that stands for this opcode.
    pub open spec fn byte(self) -> u8 {
        match self {
            Opcode::Error => 0x00,
            Opcode::Startup => 0x01,
            Opcode::Ready => 0x02,
            Opcode::Authenticate => 0x03,
            Opcode::Options => 0x05,
            Opcode::Supported => 0x06,
            Opcode::Query => 0x07,
            Opcode::Result => 0x08,
            Opcode::Prepare => 0x09,
            Opcode::Execute => 0x0A,
            Opcode::Register => 0x0B,
            Opcode::Event => 0x0C,
            Opcode::Batch => 0x0D,
            Opcode::AuthChallenge => 0x0E,
            Opcode::AuthResponse => 0x0F,
            Opcode::AuthSuccess => 0x10,
        }
    }

    /// The opcode that a byte stands for, if any.
    pub open spec fn of_byte(b: u8) -> Option<Opcode> {
        if b == 0x00 {
            Some(Opcode::Error)
        } else if b == 0x01 {
            Some(Opcode::Startup)
        } else if b == 0x02 {
            Some(Opcode::Ready)
        } else if b == 0x03 {
            Some(Opcode::Authenticate)
        } else if b == 0x05 {
            Some(Opcode::Options)
        } else if b == 0x06 {
            Some(Opcode::Supported)
        } else if b == 0x07 {
            Some(Opcode::Query)
        } else if b == 0x08 {
            Some(Opcode::Result)
        } else if b == 0x09 {
            Some(Opcode::Prepare)
        } else if b == 0x0A {
            Some(Opcode::Execute)
        } else if b == 0x0B {
            Some(Opcode::Register)
        } else if b == 0x0C {
            Some(Opcode::Event)
        } else if b == 0x0D {
            Some(Opcode::Batch)
        } else if b == 0x0E {
            Some(Opcode::AuthChallenge)
        } else if b == 0x0F {
            Some(Opcode::AuthResponse)
        } else if b == 0x10 {
            Some(Opcode::AuthSuccess)
        } else {
            None
        }
    }

    /// What `from` makes of an opcode field.
    pub open spec fn parsed(oc: Seq<u8>) -> Result<Opcode, Error> {
        if oc.len() == OPCODE_LEN as nat && Self::of_byte(oc[0]).is_some() {
            Ok(Self::of_byte(oc[0]).unwrap())
        } else {
            Err(Error::Decode(Context::Opcode))
        }
    }

    pub fn as_byte(&self) -> (r: u8)
        ensures
            r == self.byte(),
    {
        match self {
            Opcode::Error => 0x00,
            Opcode::Startup => 0x01,
            Opcode::Ready => 0x02,
            Opcode::Authenticate => 0x03,
            Opcode::Options => 0x05,
            Opcode::Supported => 0x06,
            Opcode::Query => 0x07,
            Opcode::Result => 0x08,
            Opcode::Prepare => 0x09,
            Opcode::Execute => 0x0A,
            Opcode::Register => 0x0B,
            Opcode::Event => 0x0C,
            Opcode::Batch => 0x0D,
            Opcode::AuthChallenge => 0x0E,
            Opcode::AuthResponse => 0x0F,
            Opcode::AuthSuccess => 0x10,
        }
    }

    /// Reads an opcode field: one byte, with one of the sixteen defined values.
    pub fn from(oc: Vec<u8>) -> (r: Result<Opcode, Error>)
        ensures
            r == Self::parsed(oc@),
    {
        if oc.len() != OPCODE_LEN {
            return Err(Error::Decode(Context::Opcode));
        }
        match oc[0] {
            0x00 => Ok(Opcode::Error),
            0x01 => Ok(Opcode::Startup),
            0x02 => Ok(Opcode::Ready),
            0x03 => Ok(Opcode::Authenticate),
            0x05 => Ok(Opcode::Options),
            0x06 => Ok(Opcode::Supported),
            0x07 => Ok(Opcode::Query),
            0x08 => Ok(Opcode::Result),
            0x09 => Ok(Opcode::Prepare),
            0x0A => Ok(Opcode::Execute),
            0x0B => Ok(Opcode::Register),
            0x0C => Ok(Opcode::Event),
            0x0D => Ok(Opcode::Batch),
            0x0E => Ok(Opcode::AuthChallenge),
            0x0F => Ok(Opcode::AuthResponse),
            0x10 => Ok(Opcode::AuthSuccess),
            _ => Err(Error::Decode(Context::Opcode)),
        }
    }
}

/// Every version is the one that its byte stands for.
pub proof fn lemma_version_round_trip(v: Version)
    ensures
        Version::of_byte(v.byte()) == Some(v),
{
}

/// The byte of a known flag holds that flag and no other, and the byte that stands for
/// no flag holds none.
pub proof fn lemma_flag_round_trip(f: Flag)
    ensures
        f != Flag::Ignore ==> Flag::all_in(f.byte()) == seq![f],
        f == Flag::Ignore ==> Flag::all_in(f.byte()) == Seq::<Flag>::empty(),
{
    assert(0x01u8 & 0x01 != 0 && 0x01u8 & 0x02 == 0 && 0x01u8 & 0x04 == 0 && 0x01u8 & 0x08 == 0)
        by (bit_vector);
    assert(0x02u8 & 0x01 == 0 && 0x02u8 & 0x02 != 0 && 0x02u8 & 0x04 == 0 && 0x02u8 & 0x08 == 0)
        by (bit_vector);
    assert(0x04u8 & 0x01 == 0 && 0x04u8 & 0x02 == 0 && 0x04u8 & 0x04 != 0 && 0x04u8 & 0x08 == 0)
        by (bit_vector);
    assert(0x08u8 & 0x01 == 0 && 0x08u8 & 0x02 == 0 && 0x08u8 & 0x04 == 0 && 0x08u8 & 0x08 != 0)
        by (bit_vector);
    assert(0x00u8 & 0x01 == 0 && 0x00u8 & 0x02 == 0 && 0x00u8 & 0x04 == 0 && 0x00u8 & 0x08 == 0)
        by (bit_vector);
    assert(Flag::all_in(f.byte()) =~= if f == Flag::Ignore {
        Seq::<Flag>::empty()
    } else {
        seq![f]
    });
}

/// Every opcode is the one that its byte stands for.
pub proof fn lemma_opcode_round_trip(oc: Opcode)
    ensures
        Opcode::of_byte(oc.byte()) == Some(oc),
{
}

/// A frame: the unit in which the two sides talk.
#[derive(Debug)]
pub struct Frame {
    pub version: Version,
    /// The flag byte, one bit for each flag that is set.
    pub flags: u8,
    pub opcode: Opcode,
    pub stream: i16,
    pub body: Vec<u8>,
}

/// A frame as a mathematical value.
pub struct FrameView {
    pub version: Version,
    pub flags: u8,
    pub opcode: Opcode,
    pub stream: i16,
    pub body: Seq<u8>,
}

impl FrameView {
    /// The nine bytes of the header.
    pub open spec fn header(self) -> Seq<u8> {
        seq![self.version.byte(), self.flags] + be_bytes(unsigned_of(self.stream as int, 2), 2)
            + seq![self.opcode.byte()] + be_bytes(self.body.len(), 4)
    }

    /// The bytes of the frame on the wire: the header, then the body.
    pub open spec fn encoded(self) -> Seq<u8> {
        self.header() + self.body
    }

    /// Whether the header's length field can hold the length of the body.
    pub open spec fn well_formed(self) -> bool {
        self.body.len() <= MAX_BODY_LEN
    }
}

/// The length that the header at the start of `bytes` announces.
pub open spec fn announced_len(bytes: Seq<u8>) -> nat {
    be_value(bytes.subrange(5, 9))
}

/// The length of the body that the header at the start of `bytes` announces, where
/// that header is one that `side` may send.
pub open spec fn checked_len(bytes: Seq<u8>, side: Version) -> Result<nat, Error> {
    if bytes.len() < HEADER_LEN {
        Err(Error::Decode(Context::Header))
    } else if Version::of_byte(bytes[0]) != Some(side) {
        Err(Error::Decode(Context::Version))
    } else if Opcode::of_byte(bytes[4]).is_none() {
        Err(Error::Decode(Context::Opcode))
    } else if announced_len(bytes) > MAX_BODY_LEN {
        Err(Error::Decode(Context::Length))
    } else {
        Ok(announced_len(bytes))
    }
}

/// The frame that `bytes` hold, where they are exactly one frame sent by `side`.
pub open spec fn decoded(bytes: Seq<u8>, side: Version) -> Result<FrameView, Error> {
    match checked_len(bytes, side) {
        Err(e) => Err(e),
        Ok(n) => if bytes.len() != HEADER_LEN + n {
            Err(Error::Decode(Context::Body))
        } else {
            Ok(
                FrameView {
                    version: side,
                    flags: bytes[1],
                    opcode: Opcode::of_byte(bytes[4]).unwrap(),
                    stream: signed_of(be_value(bytes.subrange(2, 4)), 2) as i16,
                    body: bytes.subrange(HEADER_LEN as int, bytes.len() as int),
                },
            )
        },
    }
}

impl View for Frame {
    type V = FrameView;

    open spec fn view(&self) -> FrameView {
        FrameView {
            version: self.version,
            flags: self.flags,
            opcode: self.opcode,
            stream: self.stream,
            body: self.body@,
        }
    }
}

impl Frame {
    /// Whether the flag `f` is set in this frame.
    pub open spec fn flag_set(self, f: Flag) -> bool {
        self.flags & f.byte() != 0
    }

    /// The known flags that are set in this frame, in the order of their bits.
    pub fn get_flags(&self) -> (r: Vec<Flag>)
        ensures
            r@ == Flag::all_in(self.flags),
            forall|x: Flag| r@.contains(x) <==> x.set_in(self.flags),
    {
        Flag::get_collection(self.flags)
    }

    /// Tells whether the flag `f` is set in this frame.
    pub fn has_flag(&self, f: Flag) -> (r: bool)
        ensures
            r == self.flag_set(f),
    {
        self.flags & f.as_byte() != 0
    }

    /// Tells whether the header's length field can hold the length of the body.
    pub fn is_well_formed(&self) -> (r: bool)
        ensures
            r == self@.well_formed(),
    {
        self.body.len() <= MAX_BODY_LEN
    }

    /// The bytes of this frame on the wire. The length field of the header holds the
    /// length of the body.
    pub fn into_cbytes(&self) -> (v: Vec<u8>)
        requires
            self@.well_formed(),
        ensures
            v@ == self@.encoded(),
            v@.len() == HEADER_LEN + self.body@.len(),
            announced_len(v@) == self.body@.len(),
    {
        let mut v: Vec<u8> = Vec::new();
        let version_bytes = self.version.as_byte();
        let opcode_bytes = self.opcode.as_byte();
        let body_len = self.body.len();
        v.push(version_bytes);
        v.push(self.flags);
        let stream_bytes = to_n_bytes(u16_of_i16(self.stream) as u64, STREAM_LEN);
        append(&mut v, stream_bytes.as_slice());
        v.push(opcode_bytes);
        let length_bytes = to_n_bytes(body_len as u64, LENGTH_LEN);
        append(&mut v, length_bytes.as_slice());
        append(&mut v, self.body.as_slice());
        proof {
            lemma_be_bytes_len(unsigned_of(self.stream as int, 2), 2);
            lemma_be_bytes_len(self.body@.len(), 4);
            assert(v@ =~= self@.encoded());
            lemma_encoded_shape(self@);
        }
        v
    }
}

/// In the bytes of a frame the header takes nine bytes, its length field holds the
/// length of the body, and the body follows unchanged.
pub proof fn lemma_encoded_shape(f: FrameView)
    requires
        f.well_formed(),
    ensures
        f.encoded().len() == HEADER_LEN + f.body.len(),
        f.encoded()[0] == f.version.byte(),
        f.encoded()[1] == f.flags,
        f.encoded().subrange(2, 4) == be_bytes(unsigned_of(f.stream as int, 2), 2),
        f.encoded()[4] == f.opcode.byte(),
        f.encoded().subrange(5, 9) == be_bytes(f.body.len(), 4),
        announced_len(f.encoded()) == f.body.len(),
        f.encoded().subrange(HEADER_LEN as int, f.encoded().len() as int) == f.body,
{
    let e = f.encoded();
    lemma_be_bytes_len(unsigned_of(f.stream as int, 2), 2);
    lemma_be_bytes_len(f.body.len(), 4);
    assert(e.subrange(2, 4) =~= be_bytes(unsigned_of(f.stream as int, 2), 2));
    assert(e.subrange(5, 9) =~= be_bytes(f.body.len(), 4));
    assert(e.subrange(HEADER_LEN as int, e.len() as int) =~= f.body);
    lemma_pow256_values();
    lemma_be_round_trip(f.body.len(), 4);
}

/// Decoding the bytes of a frame, as the side that sent it, gives the frame back.
pub proof fn lemma_frame_round_trip(f: FrameView)
    requires
        f.well_formed(),
    ensures
        decoded(f.encoded(), f.version) == Ok::<FrameView, Error>(f),
{
    lemma_encoded_shape(f);
    lemma_pow256_values();
    lemma_signed_round_trip(f.stream as int, 2);
    lemma_be_round_trip(unsigned_of(f.stream as int, 2), 2);
    lemma_version_round_trip(f.version);
    lemma_opcode_round_trip(f.opcode);
    let d = decoded(f.encoded(), f.version);
    assert(d.is_ok());
    assert(d.unwrap().body == f.body);
    assert(d.unwrap().stream == f.stream);
}

/// Checks the header at the start of `bytes`, which `side` must have sent, and tells
/// how many bytes of body follow it.
pub fn parse_header(bytes: &[u8], side: Version) -> (r: Result<usize, Error>)
    ensures
        match r {
            Ok(n) => checked_len(bytes@, side) == Ok::<nat, Error>(n as nat),
            Err(e) => checked_len(bytes@, side) == Err::<nat, Error>(e),
        },
{
    if bytes.len() < HEADER_LEN {
        return Err(Error::Decode(Context::Header));
    }
    let version = match Version::from(copy_range(bytes, 0, 1)) {
        Ok(v) => v,
        Err(e) => {
            return Err(e);
        },
    };
    if version != side {
        return Err(Error::Decode(Context::Version));
    }
    if Opcode::from(copy_range(bytes, 4, 5)).is_err() {
        return Err(Error::Decode(Context::Opcode));
    }
    let length = from_n_bytes(slice_subrange(bytes, 5, 9));
    if length > MAX_BODY_LEN as u64 {
        return Err(Error::Decode(Context::Length));
    }
    Ok(length as usize)
}

/// Reads the frame that `bytes` hold. They must be one whole frame that `side` sent,
/// and nothing more.
pub fn parse_frame(bytes: &[u8], side: Version) -> (r: Result<Frame, Error>)
    ensures
        match r {
            Ok(f) => decoded(bytes@, side) == Ok::<FrameView, Error>(f@),
            Err(e) => decoded(bytes@, side) == Err::<FrameView, Error>(e),
        },
{
    let n = match parse_header(bytes, side) {
        Ok(n) => n,
        Err(e) => {
            return Err(e);
        },
    };
    if bytes.len() - HEADER_LEN != n {
        return Err(Error::Decode(Context::Body));
    }
    let opcode = match Opcode::from(copy_range(bytes, 4, 5)) {
        Ok(oc) => oc,
        Err(e) => {
            return Err(e);
        },
    };
    let stream_bits = from_n_bytes(slice_subrange(bytes, 2, 4));
    proof {
        lemma_be_value_bound(bytes@.subrange(2, 4));
        lemma_pow256_values();
    }
    Ok(
        Frame {
            version: side,
            flags: bytes[1],
            opcode,
            stream: i16_of_u16(stream_bits as u16),
            body: copy_range(bytes, HEADER_LEN, bytes.len()),
        },
    )
}

} // verus!
