//! Consistency levels.

use vstd::prelude::*;
use crate::error::{Context, Error};
use crate::primitive::{read_short, unsigned_at, unsigned_wire, write_short};

verus! {

/// How many replicas must answer a read or a write.
#[derive(Debug, Clone, Copy, PartialEq, Eq, Structural)]
pub enum Consistency {
    Any,
    One,
    Two,
    Three,
    Quorum,
    All,
    LocalQuorum,
    EachQuorum,
    Serial,
    LocalSerial,
    LocalOne,
}

impl Consistency {
    /// The 16-bit code of this level.
    pub open spec fn code(self) -> u16 {
        match self {
            Consistency::Any => 0x0000,
            Consistency::One => 0x0001,
            Consistency::Two => 0x0002,
            Consistency::Three => 0x0003,
            Consistency::Quorum => 0x0004,
            Consistency::All => 0x0005,
            Consistency::LocalQuorum => 0x0006,
            Consistency::EachQuorum => 0x0007,
            Consistency::Serial => 0x0008,
            Consistency::LocalSerial => 0x0009,
            Consistency::LocalOne => 0x000A,
        }
    }

    /// The level with the code `c`, if there is one.
    pub open spec fn of_code(c: u16) -> Option<Consistency> {
        if c == 0x0000 {
            Some(Consistency::Any)
        } else if c == 0x0001 {
            Some(Consistency::One)
        } else if c == 0x0002 {
            Some(Consistency::Two)
        } else if c == 0x0003 {
            Some(Consistency::Three)
        } else if c == 0x0004 {
            Some(Consistency::Quorum)
        } else if c == 0x0005 {
            Some(Consistency::All)
        } else if c == 0x0006 {
            Some(Consistency::LocalQuorum)
        } else if c == 0x0007 {
            Some(Consistency::EachQuorum)
        } else if c == 0x0008 {
            Some(Consistency::Serial)
        } else if c == 0x0009 {
            Some(Consistency::LocalSerial)
        } else if c == 0x000A {
            Some(Consistency::LocalOne)
        } else {
            None
        }
    }

    pub fn as_short(&self) -> (r: u16)
        ensures
            r == self.code(),
    {
        match self {
            Consistency::Any => 0x0000,
            Consistency::One => 0x0001,
            Consistency::Two => 0x0002,
            Consistency::Three => 0x0003,
            Consistency::Quorum => 0x0004,
            Consistency::All => 0x0005,
            Consistency::LocalQuorum => 0x0006,
            Consistency::EachQuorum => 0x0007,
            Consistency::Serial => 0x0008,
            Consistency::LocalSerial => 0x0009,
            Consistency::LocalOne => 0x000A,
        }
    }

    /// The level with the code `c`; a code that the protocol does not define is an error.
    pub fn from_short(c: u16) -> (r: Result<Consistency, Error>)
        ensures
            r == match Self::of_code(c) {
                Some(l) => Ok::<Consistency, Error>(l),
                None => Err::<Consistency, Error>(Error::Decode(Context::UnknownCode)),
            },
    {
        match c {
            0x0000 => Ok(Consistency::Any),
            0x0001 => Ok(Consistency::One),
            0x0002 => Ok(Consistency::Two),
            0x0003 => Ok(Consistency::Three),
            0x0004 => Ok(Consistency::Quorum),
            0x0005 => Ok(Consistency::All),
            0x0006 => Ok(Consistency::LocalQuorum),
            0x0007 => Ok(Consistency::EachQuorum),
            0x0008 => Ok(Consistency::Serial),
            0x0009 => Ok(Consistency::LocalSerial),
            0x000A => Ok(Consistency::LocalOne),
            _ => Err(Error::Decode(Context::UnknownCode)),
        }
    }

    /// This level as a `[consistency]` on the wire.
    pub fn into_cbytes(&self) -> (r: Vec<u8>)
        ensures
            r@ == consistency_wire(*self),
    {
        let mut out: Vec<u8> = Vec::new();
        write_short(&mut out, self.as_short());
        out
    }
}

impl Default for Consistency {
    fn default() -> (r: Consistency)
        ensures
            r == Consistency::One,
    {
        Consistency::One
    }
}

/// How a `[consistency]` is written: its code as a `[short]`.
pub open spec fn consistency_wire(l: Consistency) -> Seq<u8> {
    unsigned_wire(l.code() as nat, 2)
}

/// The `[consistency]` at `pos`.
pub open spec fn consistency_at(s: Seq<u8>, pos: nat) -> Result<(Consistency, nat), Error> {
    match unsigned_at(s, pos, 2) {
        Err(e) => Err(e),
        Ok((c, next)) => match Consistency::of_code(c as u16) {
            Some(l) => Ok((l, next)),
            None => Err(Error::Decode(Context::UnknownCode)),
        },
    }
}

/// Reads a `[consistency]` at `pos`.
pub fn read_consistency(bytes: &[u8], pos: usize) -> (r: Result<(Consistency, usize), Error>)
    requires
        pos <= bytes@.len(),
    ensures
        match r {
            Ok((l, next)) => consistency_at(bytes@, pos as nat) == Ok::<(Consistency, nat), Error>(
                (l, next as nat),
            ) && next == pos + 2 && next <= bytes@.len(),
            Err(e) => consistency_at(bytes@, pos as nat) == Err::<(Consistency, nat), Error>(e),
        },
{
    match read_short(bytes, pos) {
        Err(e) => Err(e),
        Ok((c, next)) => match Consistency::from_short(c) {
            Ok(l) => Ok((l, next)),
            Err(e) => Err(e),
        },
    }
}

/// Every level is the one that its code stands for, and is read as it was written.
pub proof fn lemma_consistency_round_trip(s: Seq<u8>, pos: nat, l: Consistency)
    requires
        crate::primitive::holds_at(s, pos, consistency_wire(l)),
    ensures
        Consistency::of_code(l.code()) == Some(l),
        consistency_at(s, pos) == Ok::<(Consistency, nat), Error>((l, pos + 2)),
{
    crate::primitive::lemma_short_round_trip(s, pos, l.code());
}

} // verus!
