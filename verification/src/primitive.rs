//! The protocol's fixed-width values: how each is written, and how it is read at a
//! position of a buffer.

use vstd::prelude::*;
use vstd::slice::slice_subrange;
use crate::endian::{
    append, be_bytes, be_value, from_n_bytes, i32_of_u32, i64_of_u64, lemma_be_bytes_len,
    lemma_be_round_trip, lemma_be_value_bound, lemma_pow256_values, lemma_signed_round_trip,
    signed_of, to_n_bytes, u32_of_i32, u64_of_i64, unsigned_of,
};
use crate::error::Context;
use crate::error::Error;

verus! {

/// The `n` bytes of `s` that start at `pos`, with the position after them.
pub open spec fn take(s: Seq<u8>, pos: nat, n: nat) -> Result<(Seq<u8>, nat), Error> {
    if pos + n <= s.len() {
        Ok((s.subrange(pos as int, (pos + n) as int), pos + n))
    } else {
        Err(Error::Decode(Context::Truncated))
    }
}

/// The unsigned number in the `n` bytes of `s` that start at `pos`.
pub open spec fn unsigned_at(s: Seq<u8>, pos: nat, n: nat) -> Result<(nat, nat), Error> {
    match take(s, pos, n) {
        Ok((b, next)) => Ok((be_value(b), next)),
        Err(e) => Err(e),
    }
}

/// The two's-complement number in the `n` bytes of `s` that start at `pos`.
pub open spec fn signed_at(s: Seq<u8>, pos: nat, n: nat) -> Result<(int, nat), Error> {
    match take(s, pos, n) {
        Ok((b, next)) => Ok((signed_of(be_value(b), n), next)),
        Err(e) => Err(e),
    }
}

/// What `s` holds from `pos` on is `w`, and then whatever follows.
pub open spec fn holds_at(s: Seq<u8>, pos: nat, w: Seq<u8>) -> bool {
    pos + w.len() <= s.len() && s.subrange(pos as int, (pos + w.len()) as int) == w
}

/// How an unsigned number is written in `n` bytes.
pub open spec fn unsigned_wire(v: nat, n: nat) -> Seq<u8> {
    be_bytes(v, n)
}

/// How a signed number is written in `n` bytes.
pub open spec fn signed_wire(x: int, n: nat) -> Seq<u8> {
    be_bytes(unsigned_of(x, n), n)
}

/// An unsigned number of `n` bytes is read as it was written.
pub proof fn lemma_unsigned_round_trip_at(s: Seq<u8>, pos: nat, v: nat, n: nat)
    requires
        v < crate::endian::pow256(n),
        holds_at(s, pos, unsigned_wire(v, n)),
    ensures
        unsigned_at(s, pos, n) == Ok::<(nat, nat), Error>((v, pos + n)),
{
    lemma_be_bytes_len(v, n);
    lemma_be_round_trip(v, n);
}

/// A signed number of `n` bytes is read as it was written.
pub proof fn lemma_signed_round_trip_at(s: Seq<u8>, pos: nat, x: int, n: nat)
    requires
        crate::endian::fits_signed(x, n),
        holds_at(s, pos, signed_wire(x, n)),
    ensures
        signed_at(s, pos, n) == Ok::<(int, nat), Error>((x, pos + n)),
{
    lemma_signed_round_trip(x, n);
    lemma_be_bytes_len(unsigned_of(x, n), n);
    lemma_be_round_trip(unsigned_of(x, n), n);
}

/// Reads the unsigned number of `n` bytes, at most eight, at `pos`.
pub fn read_unsigned(bytes: &[u8], pos: usize, n: usize) -> (r: Result<(u64, usize), Error>)
    requires
        n <= 8,
        pos <= bytes@.len(),
    ensures
        match r {
            Ok((v, next)) => unsigned_at(bytes@, pos as nat, n as nat) == Ok::<(nat, nat), Error>(
                (v as nat, next as nat),
            ),
            Err(e) => unsigned_at(bytes@, pos as nat, n as nat) == Err::<(nat, nat), Error>(e),
        },
        r.is_ok() ==> r.unwrap().0 < crate::endian::pow256(n as nat) && r.unwrap().1 == pos + n
            && r.unwrap().1 <= bytes@.len(),
{
    if bytes.len() - pos < n {
        return Err(Error::Decode(Context::Truncated));
    }
    let v = from_n_bytes(slice_subrange(bytes, pos, pos + n));
    proof {
        lemma_be_value_bound(bytes@.subrange(pos as int, pos + n));
    }
    Ok((v, pos + n))
}

/// Reads one byte at `pos`.
pub fn read_byte(bytes: &[u8], pos: usize) -> (r: Result<(u8, usize), Error>)
    requires
        pos <= bytes@.len(),
    ensures
        match r {
            Ok((v, next)) => unsigned_at(bytes@, pos as nat, 1) == Ok::<(nat, nat), Error>(
                (v as nat, next as nat),
            ),
            Err(e) => unsigned_at(bytes@, pos as nat, 1) == Err::<(nat, nat), Error>(e),
        },
        r.is_ok() ==> r.unwrap().1 == pos + 1 && r.unwrap().1 <= bytes@.len(),
{
    proof {
        lemma_pow256_values();
    }
    match read_unsigned(bytes, pos, 1) {
        Ok((v, next)) => Ok((v as u8, next)),
        Err(e) => Err(e),
    }
}

/// Reads a `[short]`, an unsigned number of two bytes, at `pos`.
pub fn read_short(bytes: &[u8], pos: usize) -> (r: Result<(u16, usize), Error>)
    requires
        pos <= bytes@.len(),
    ensures
        match r {
            Ok((v, next)) => unsigned_at(bytes@, pos as nat, 2) == Ok::<(nat, nat), Error>(
                (v as nat, next as nat),
            ),
            Err(e) => unsigned_at(bytes@, pos as nat, 2) == Err::<(nat, nat), Error>(e),
        },
        r.is_ok() ==> r.unwrap().1 == pos + 2 && r.unwrap().1 <= bytes@.len(),
{
    proof {
        lemma_pow256_values();
    }
    match read_unsigned(bytes, pos, 2) {
        Ok((v, next)) => Ok((v as u16, next)),
        Err(e) => Err(e),
    }
}

/// Reads an `[int]`, a signed number of four bytes, at `pos`.
pub fn read_int(bytes: &[u8], pos: usize) -> (r: Result<(i32, usize), Error>)
    requires
        pos <= bytes@.len(),
    ensures
        match r {
            Ok((v, next)) => signed_at(bytes@, pos as nat, 4) == Ok::<(int, nat), Error>(
                (v as int, next as nat),
            ),
            Err(e) => signed_at(bytes@, pos as nat, 4) == Err::<(int, nat), Error>(e),
        },
        r.is_ok() ==> r.unwrap().1 == pos + 4 && r.unwrap().1 <= bytes@.len(),
{
    proof {
        lemma_pow256_values();
    }
    match read_unsigned(bytes, pos, 4) {
        Ok((v, next)) => Ok((i32_of_u32(v as u32), next)),
        Err(e) => Err(e),
    }
}

/// Reads a `[long]`, a signed number of eight bytes, at `pos`.
pub fn read_long(bytes: &[u8], pos: usize) -> (r: Result<(i64, usize), Error>)
    requires
        pos <= bytes@.len(),
    ensures
        match r {
            Ok((v, next)) => signed_at(bytes@, pos as nat, 8) == Ok::<(int, nat), Error>(
                (v as int, next as nat),
            ),
            Err(e) => signed_at(bytes@, pos as nat, 8) == Err::<(int, nat), Error>(e),
        },
        r.is_ok() ==> r.unwrap().1 == pos + 8 && r.unwrap().1 <= bytes@.len(),
{
    proof {
        lemma_pow256_values();
    }
    match read_unsigned(bytes, pos, 8) {
        Ok((v, next)) => Ok((i64_of_u64(v), next)),
        Err(e) => Err(e),
    }
}

/// Appends one byte.
pub fn write_byte(out: &mut Vec<u8>, v: u8)
    ensures
        final(out)@ == old(out)@ + unsigned_wire(v as nat, 1),
{
    let b = to_n_bytes(v as u64, 1);
    append(out, b.as_slice());
}

/// Appends a `[short]`.
pub fn write_short(out: &mut Vec<u8>, v: u16)
    ensures
        final(out)@ == old(out)@ + unsigned_wire(v as nat, 2),
{
    let b = to_n_bytes(v as u64, 2);
    append(out, b.as_slice());
}

/// Appends an `[int]`.
pub fn write_int(out: &mut Vec<u8>, v: i32)
    ensures
        final(out)@ == old(out)@ + signed_wire(v as int, 4),
{
    let b = to_n_bytes(u32_of_i32(v) as u64, 4);
    append(out, b.as_slice());
}

/// Appends a `[long]`.
pub fn write_long(out: &mut Vec<u8>, v: i64)
    ensures
        final(out)@ == old(out)@ + signed_wire(v as int, 8),
{
    let b = to_n_bytes(u64_of_i64(v), 8);
    append(out, b.as_slice());
}

/// A `[short]` is read as it was written.
pub proof fn lemma_short_round_trip(s: Seq<u8>, pos: nat, v: u16)
    requires
        holds_at(s, pos, unsigned_wire(v as nat, 2)),
    ensures
        unsigned_at(s, pos, 2) == Ok::<(nat, nat), Error>((v as nat, pos + 2)),
{
    lemma_pow256_values();
    lemma_unsigned_round_trip_at(s, pos, v as nat, 2);
}

/// An `[int]` is read as it was written.
pub proof fn lemma_int_round_trip(s: Seq<u8>, pos: nat, v: i32)
    requires
        holds_at(s, pos, signed_wire(v as int, 4)),
    ensures
        signed_at(s, pos, 4) == Ok::<(int, nat), Error>((v as int, pos + 4)),
{
    lemma_pow256_values();
    lemma_signed_round_trip_at(s, pos, v as int, 4);
}

/// A `[long]` is read as it was written.
pub proof fn lemma_long_round_trip(s: Seq<u8>, pos: nat, v: i64)
    requires
        holds_at(s, pos, signed_wire(v as int, 8)),
    ensures
        signed_at(s, pos, 8) == Ok::<(int, nat), Error>((v as int, pos + 8)),
{
    lemma_pow256_values();
    lemma_signed_round_trip_at(s, pos, v as int, 8);
}

/// Where `s` holds `a` and then `b` from `pos` on, it holds `a` at `pos` and `b` after it.
pub proof fn lemma_holds_at_concat(s: Seq<u8>, pos: nat, a: Seq<u8>, b: Seq<u8>)
    requires
        holds_at(s, pos, a + b),
    ensures
        holds_at(s, pos, a),
        holds_at(s, pos + a.len(), b),
{
    let w = a + b;
    let part = s.subrange(pos as int, (pos + w.len()) as int);
    assert(s.subrange(pos as int, (pos + a.len()) as int) =~= part.subrange(0, a.len() as int));
    assert(w.subrange(0, a.len() as int) =~= a);
    assert(s.subrange((pos + a.len()) as int, (pos + a.len() + b.len()) as int)
        =~= part.subrange(a.len() as int, w.len() as int));
    assert(w.subrange(a.len() as int, w.len() as int) =~= b);
}

} // verus!
