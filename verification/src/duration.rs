//! Durations: three integers of variable length, for months, days and nanoseconds.

use vstd::prelude::*;
use vstd::slice::slice_subrange;
use crate::column::{ColType, ColTypeOption, TypeView};
use crate::endian::{
    be_value, from_n_bytes, lemma_be_value_bound, lemma_pow256_monotonic, lemma_pow256_values,
    pow256,
};
use crate::error::{Context, Error, NativeKind};
use crate::native::Native;
use crate::primitive::{read_byte, take, unsigned_at};
use crate::value::pow256_of;

verus! {

/// A `duration`: a number of months, a number of days, and a number of nanoseconds.
#[derive(Debug, Clone, Copy, PartialEq, Eq, Structural)]
pub struct Duration {
    pub months: i32,
    pub days: i32,
    pub nanoseconds: i64,
}

/// How many bytes follow the first byte of an integer of variable length: as many as
/// the first byte has ones in front.
pub open spec fn vint_extra(first: u8) -> nat {
    if first < 0x80 {
        0
    } else if first < 0xC0 {
        1
    } else if first < 0xE0 {
        2
    } else if first < 0xF0 {
        3
    } else if first < 0xF8 {
        4
    } else if first < 0xFC {
        5
    } else if first < 0xFE {
        6
    } else if first < 0xFF {
        7
    } else {
        8
    }
}

/// What the ones in front of a first byte that is followed by `extra` bytes add up to.
pub open spec fn vint_lead(extra: nat) -> nat {
    if extra == 0 {
        0
    } else if extra == 1 {
        0x80
    } else if extra == 2 {
        0xC0
    } else if extra == 3 {
        0xE0
    } else if extra == 4 {
        0xF0
    } else if extra == 5 {
        0xF8
    } else if extra == 6 {
        0xFC
    } else if extra == 7 {
        0xFE
    } else {
        0xFF
    }
}

/// The unsigned integer of variable length at `pos`: the bits of the first byte after
/// its ones in front and the zero that ends them, and then the bytes that follow, most
/// significant first.
pub open spec fn unsigned_vint_at(s: Seq<u8>, pos: nat) -> Result<(nat, nat), Error> {
    match unsigned_at(s, pos, 1) {
        Err(e) => Err(e),
        Ok((first, p)) => {
            let extra = vint_extra(first as u8);
            match take(s, p, extra) {
                Err(e) => Err(e),
                Ok((rest, next)) => Ok(
                    (((first - vint_lead(extra)) * pow256(extra) + be_value(rest)) as nat, next),
                ),
            }
        },
    }
}

/// The signed integer that the unsigned integer `n` stands for: the even numbers
/// stand for 0, 1, 2 and so on, the odd ones for -1, -2, -3 and so on.
pub open spec fn unzigzag(n: nat) -> int {
    if n % 2 == 0 {
        n as int / 2
    } else {
        -((n as int + 1) / 2)
    }
}

/// The signed integer of variable length at `pos`.
pub open spec fn vint_at(s: Seq<u8>, pos: nat) -> Result<(int, nat), Error> {
    match unsigned_vint_at(s, pos) {
        Err(e) => Err(e),
        Ok((n, next)) => Ok((unzigzag(n), next)),
    }
}

/// What a `duration` value holds: three signed integers of variable length, for the
/// months, the days and the nanoseconds, and nothing after them. The months and the
/// days must each fit 32 bits.
pub open spec fn duration_of(b: Seq<u8>) -> Result<Duration, Error> {
    match vint_at(b, 0) {
        Err(e) => Err(e),
        Ok((months, p1)) => match vint_at(b, p1) {
            Err(e) => Err(e),
            Ok((days, p2)) => match vint_at(b, p2) {
                Err(e) => Err(e),
                Ok((nanoseconds, next)) => if next != b.len() {
                    Err(Error::Decode(Context::Trailing))
                } else if !(i32::MIN <= months <= i32::MAX && i32::MIN <= days <= i32::MAX) {
                    Err(Error::Decode(Context::Width))
                } else {
                    Ok(
                        Duration {
                            months: months as i32,
                            days: days as i32,
                            nanoseconds: nanoseconds as i64,
                        },
                    )
                },
            },
        },
    }
}

/// Tells how many bytes follow the first byte of an integer of variable length, and
/// what the ones in front of that byte add up to.
fn vint_shape(first: u8) -> (r: (usize, u8))
    ensures
        r.0 == vint_extra(first),
        r.1 == vint_lead(vint_extra(first)),
        r.0 <= 8,
        r.1 <= first,
        r.0 == 8 ==> first == r.1,
        first - r.1 <= 127,
{
    if first < 0x80 {
        (0, 0)
    } else if first < 0xC0 {
        (1, 0x80)
    } else if first < 0xE0 {
        (2, 0xC0)
    } else if first < 0xF0 {
        (3, 0xE0)
    } else if first < 0xF8 {
        (4, 0xF0)
    } else if first < 0xFC {
        (5, 0xF8)
    } else if first < 0xFE {
        (6, 0xFC)
    } else if first < 0xFF {
        (7, 0xFE)
    } else {
        (8, 0xFF)
    }
}

/// Reads the unsigned integer of variable length at `pos`.
pub fn read_unsigned_vint(bytes: &[u8], pos: usize) -> (r: Result<(u64, usize), Error>)
    requires
        pos <= bytes@.len(),
    ensures
        match r {
            Ok((n, next)) => unsigned_vint_at(bytes@, pos as nat) == Ok::<(nat, nat), Error>(
                (n as nat, next as nat),
            ) && pos < next <= bytes@.len(),
            Err(e) => unsigned_vint_at(bytes@, pos as nat) == Err::<(nat, nat), Error>(e),
        },
{
    let (first, p) = match read_byte(bytes, pos) {
        Ok(x) => x,
        Err(e) => {
            return Err(e);
        },
    };
    let (extra, lead) = vint_shape(first);
    if bytes.len() - p < extra {
        return Err(Error::Decode(Context::Truncated));
    }
    let low = from_n_bytes(slice_subrange(bytes, p, p + extra));
    proof {
        lemma_be_value_bound(bytes@.subrange(p as int, p + extra));
        lemma_pow256_values();
    }
    if extra == 8 {
        assert((first - lead) * pow256(8) == 0) by (nonlinear_arith)
            requires
                first - lead == 0,
        ;
        return Ok((low, p + extra));
    }
    let unit = pow256_of(extra);
    let digit = (first - lead) as u128;
    proof {
        lemma_pow256_monotonic(extra as nat, 7);
        assert(digit * unit + low < 0x1_0000_0000_0000_0000) by (nonlinear_arith)
            requires
                0 <= digit <= 127,
                0 <= low < unit,
                unit <= 0x100_0000_0000_0000,
        ;
    }
    Ok(((digit * unit + low as u128) as u64, p + extra))
}

/// Gives the signed integer that the unsigned integer `n` stands for.
pub fn from_zigzag(n: u64) -> (r: i64)
    ensures
        r == unzigzag(n as nat),
{
    if n % 2 == 0 {
        (n / 2) as i64
    } else {
        -(((n - 1) / 2) as i64) - 1
    }
}

/// Reads the signed integer of variable length at `pos`.
pub fn read_vint(bytes: &[u8], pos: usize) -> (r: Result<(i64, usize), Error>)
    requires
        pos <= bytes@.len(),
    ensures
        match r {
            Ok((n, next)) => vint_at(bytes@, pos as nat) == Ok::<(int, nat), Error>(
                (n as int, next as nat),
            ) && pos < next <= bytes@.len(),
            Err(e) => vint_at(bytes@, pos as nat) == Err::<(int, nat), Error>(e),
        },
{
    match read_unsigned_vint(bytes, pos) {
        Ok((n, next)) => Ok((from_zigzag(n), next)),
        Err(e) => Err(e),
    }
}

/// A `duration`.
pub fn decode_duration(bytes: &[u8]) -> (r: Result<Duration, Error>)
    ensures
        r == duration_of(bytes@),
{
    let (months, p1) = match read_vint(bytes, 0) {
        Ok(x) => x,
        Err(e) => {
            return Err(e);
        },
    };
    let (days, p2) = match read_vint(bytes, p1) {
        Ok(x) => x,
        Err(e) => {
            return Err(e);
        },
    };
    let (nanoseconds, next) = match read_vint(bytes, p2) {
        Ok(x) => x,
        Err(e) => {
            return Err(e);
        },
    };
    if next != bytes.len() {
        return Err(Error::Decode(Context::Trailing));
    }
    if months < -0x8000_0000 || months > 0x7fff_ffff || days < -0x8000_0000 || days
        > 0x7fff_ffff {
        return Err(Error::Decode(Context::Width));
    }
    Ok(Duration { months: months as i32, days: days as i32, nanoseconds })
}

impl Native for Duration {
    type Model = Duration;

    open spec fn model(&self) -> Duration {
        *self
    }

    open spec fn kind() -> NativeKind {
        NativeKind::Duration
    }

    /// The protocol has no code of its own for a duration: a column of durations is
    /// declared as a custom type.
    open spec fn accepts(t: ColType) -> bool {
        t == ColType::Custom
    }

    open spec fn value_of(t: TypeView, b: Seq<u8>) -> Result<Duration, Error> {
        duration_of(b)
    }

    fn native_kind() -> (r: NativeKind) {
        NativeKind::Duration
    }

    fn can_hold(t: ColType) -> (r: bool) {
        t == ColType::Custom
    }

    fn decode(t: &ColTypeOption, b: &[u8]) -> (r: Result<Duration, Error>) {
        if !Self::can_hold(t.id) {
            return Err(Error::InvalidProjection { expected: Self::native_kind(), actual: t.id });
        }
        decode_duration(b)
    }
}

} // verus!
