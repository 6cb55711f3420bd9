//! Big-endian integers of any width, as sequences of bytes.

use vstd::prelude::*;
use vstd::slice::{slice_subrange, slice_to_vec};

verus! {

/// 256 to the power `n`.
pub open spec fn pow256(n: nat) -> nat
    decreases n,
{
    if n == 0 {
        1
    } else {
        256 * pow256((n - 1) as nat)
    }
}

/// The number that the bytes `s` spell, most significant byte first.
pub open spec fn be_value(s: Seq<u8>) -> nat
    decreases s.len(),
{
    if s.len() == 0 {
        0
    } else {
        be_value(s.drop_last()) * 256 + s.last() as nat
    }
}

/// The `n` low-order bytes of `v`, most significant byte first.
pub open spec fn be_bytes(v: nat, n: nat) -> Seq<u8>
    decreases n,
{
    if n == 0 {
        Seq::empty()
    } else {
        be_bytes(v / 256, (n - 1) as nat).push((v % 256) as u8)
    }
}

pub proof fn lemma_pow256_positive(n: nat)
    ensures
        pow256(n) > 0,
    decreases n,
{
    if n > 0 {
        lemma_pow256_positive((n - 1) as nat);
    }
}

pub proof fn lemma_pow256_monotonic(a: nat, b: nat)
    requires
        a <= b,
    ensures
        pow256(a) <= pow256(b),
    decreases b,
{
    if a < b {
        lemma_pow256_monotonic(a, (b - 1) as nat);
        lemma_pow256_positive((b - 1) as nat);
    }
}

/// The powers of 256 that fit the machine's integers.
pub proof fn lemma_pow256_values()
    ensures
        pow256(0) == 1,
        pow256(1) == 0x100,
        pow256(2) == 0x1_0000,
        pow256(3) == 0x100_0000,
        pow256(4) == 0x1_0000_0000,
        pow256(5) == 0x100_0000_0000,
        pow256(6) == 0x1_0000_0000_0000,
        pow256(7) == 0x100_0000_0000_0000,
        pow256(8) == 0x1_0000_0000_0000_0000,
{
    reveal_with_fuel(pow256, 10);
}

pub proof fn lemma_be_bytes_len(v: nat, n: nat)
    ensures
        be_bytes(v, n).len() == n,
    decreases n,
{
    if n > 0 {
        lemma_be_bytes_len(v / 256, (n - 1) as nat);
    }
}

/// `n` bytes spell a number below 256 to the `n`.
pub proof fn lemma_be_value_bound(s: Seq<u8>)
    ensures
        be_value(s) < pow256(s.len()),
    decreases s.len(),
{
    if s.len() > 0 {
        lemma_be_value_bound(s.drop_last());
    }
}

/// Reading back the `n` low-order bytes of `v` gives `v` modulo 256 to the `n`.
pub proof fn lemma_value_of_bytes(v: nat, n: nat)
    ensures
        be_value(be_bytes(v, n)) == v % pow256(n),
    decreases n,
{
    lemma_pow256_positive(n);
    if n == 0 {
        assert(be_bytes(v, n).len() == 0);
    } else {
        let m = (n - 1) as nat;
        let s = be_bytes(v, n);
        lemma_value_of_bytes(v / 256, m);
        lemma_pow256_positive(m);
        assert(s.drop_last() =~= be_bytes(v / 256, m));
        assert(s.last() == (v % 256) as u8);
        let p = pow256(m);
        vstd::arithmetic::div_mod::lemma_mod_breakdown(v as int, 256, p as int);
    }
}

/// Writing the number that `s` spells in as many bytes gives `s` back.
pub proof fn lemma_bytes_of_value(s: Seq<u8>)
    ensures
        be_bytes(be_value(s), s.len()) == s,
    decreases s.len(),
{
    if s.len() == 0 {
        assert(be_bytes(be_value(s), s.len()) =~= s);
    } else {
        let t = s.drop_last();
        lemma_bytes_of_value(t);
        let v = be_value(s);
        assert(v / 256 == be_value(t));
        assert(v % 256 == s.last() as nat);
        assert(be_bytes(v, s.len()) =~= s);
    }
}

/// A number below 256 to the `n` survives being written in `n` bytes and read back.
pub proof fn lemma_be_round_trip(v: nat, n: nat)
    requires
        v < pow256(n),
    ensures
        be_value(be_bytes(v, n)) == v,
{
    lemma_value_of_bytes(v, n);
    lemma_pow256_positive(n);
    assert(v % pow256(n) == v) by (nonlinear_arith)
        requires
            v < pow256(n),
    ;
}

/// The `n` low-order bytes of `v`, most significant first.
pub fn to_n_bytes(v: u64, n: usize) -> (r: Vec<u8>)
    ensures
        r@ == be_bytes(v as nat, n as nat),
{
    let mut r: Vec<u8> = Vec::new();
    let mut k: usize = 0;
    while k < n
        invariant
            k <= n,
            r@.len() == k,
        decreases n - k,
    {
        r.push(0u8);
        k = k + 1;
    }
    let mut x: u64 = v;
    let mut i: usize = n;
    while i > 0
        invariant
            i <= n,
            r@.len() == n,
            be_bytes(v as nat, n as nat) == be_bytes(x as nat, i as nat) + r@.subrange(
                i as int,
                n as int,
            ),
        decreases i,
    {
        let ghost before = r@;
        i = i - 1;
        r.set(i, (x % 256) as u8);
        proof {
            assert(be_bytes(x as nat, (i + 1) as nat) == be_bytes(x as nat / 256, i as nat).push(
                (x as nat % 256) as u8,
            ));
            assert(r@.subrange(i as int, n as int) =~= seq![(x % 256) as u8] + before.subrange(
                i + 1,
                n as int,
            ));
            assert(be_bytes(x as nat / 256, i as nat).push((x as nat % 256) as u8) + before.subrange(
                i + 1,
                n as int,
            ) =~= be_bytes(x as nat / 256, i as nat) + r@.subrange(i as int, n as int));
        }
        x = x / 256;
    }
    proof {
        assert(be_bytes(x as nat, 0) + r@.subrange(0, n as int) =~= r@);
    }
    r
}

/// The number that at most eight bytes spell, most significant first.
pub fn from_n_bytes(b: &[u8]) -> (r: u64)
    requires
        b@.len() <= 8,
    ensures
        r == be_value(b@),
{
    let mut acc: u64 = 0;
    let mut i: usize = 0;
    while i < b.len()
        invariant
            i <= b@.len() <= 8,
            acc == be_value(b@.subrange(0, i as int)),
        decreases b@.len() - i,
    {
        proof {
            let s = b@.subrange(0, i + 1);
            assert(s.drop_last() =~= b@.subrange(0, i as int));
            assert(s.last() == b@[i as int]);
            lemma_be_value_bound(s);
            lemma_pow256_monotonic(s.len(), 8);
            lemma_pow256_values();
        }
        acc = acc * 256 + b[i] as u64;
        i = i + 1;
    }
    proof {
        assert(b@.subrange(0, i as int) =~= b@);
    }
    acc
}

/// The unsigned number with the same `n` bytes as `x` in two's complement.
pub open spec fn unsigned_of(x: int, n: nat) -> nat {
    if x < 0 {
        (x + pow256(n)) as nat
    } else {
        x as nat
    }
}

/// The number that the `n`-byte unsigned number `v` stands for in two's complement.
pub open spec fn signed_of(v: nat, n: nat) -> int {
    if 2 * v >= pow256(n) {
        v - pow256(n)
    } else {
        v as int
    }
}

/// Whether `x` can be written in `n` bytes in two's complement.
pub open spec fn fits_signed(x: int, n: nat) -> bool {
    -(pow256(n) as int) <= 2 * x < pow256(n)
}

/// A signed number that fits `n` bytes survives the change to unsigned and back.
pub proof fn lemma_signed_round_trip(x: int, n: nat)
    requires
        fits_signed(x, n),
    ensures
        unsigned_of(x, n) < pow256(n),
        signed_of(unsigned_of(x, n), n) == x,
{
}

/// An unsigned number below 256 to the `n` survives the change to signed and back.
pub proof fn lemma_unsigned_round_trip(v: nat, n: nat)
    requires
        v < pow256(n),
    ensures
        fits_signed(signed_of(v, n), n),
        unsigned_of(signed_of(v, n), n) == v,
{
}

pub fn u8_of_i8(x: i8) -> (r: u8)
    ensures
        r == unsigned_of(x as int, 1),
{
    proof {
        lemma_pow256_values();
    }
    if x >= 0 {
        x as u8
    } else {
        (x as i16 + 0x100) as u8
    }
}

pub fn i8_of_u8(v: u8) -> (r: i8)
    ensures
        r == signed_of(v as nat, 1),
{
    proof {
        lemma_pow256_values();
    }
    if v >= 0x80 {
        (v as i16 - 0x100) as i8
    } else {
        v as i8
    }
}

pub fn u16_of_i16(x: i16) -> (r: u16)
    ensures
        r == unsigned_of(x as int, 2),
{
    proof {
        lemma_pow256_values();
    }
    if x >= 0 {
        x as u16
    } else {
        (x as i32 + 0x1_0000) as u16
    }
}

pub fn i16_of_u16(v: u16) -> (r: i16)
    ensures
        r == signed_of(v as nat, 2),
{
    proof {
        lemma_pow256_values();
    }
    if v >= 0x8000 {
        (v as i32 - 0x1_0000) as i16
    } else {
        v as i16
    }
}

pub fn u32_of_i32(x: i32) -> (r: u32)
    ensures
        r == unsigned_of(x as int, 4),
{
    proof {
        lemma_pow256_values();
    }
    if x >= 0 {
        x as u32
    } else {
        (x as i64 + 0x1_0000_0000) as u32
    }
}

pub fn i32_of_u32(v: u32) -> (r: i32)
    ensures
        r == signed_of(v as nat, 4),
{
    proof {
        lemma_pow256_values();
    }
    if v >= 0x8000_0000 {
        (v as i64 - 0x1_0000_0000) as i32
    } else {
        v as i32
    }
}

pub fn u64_of_i64(x: i64) -> (r: u64)
    ensures
        r == unsigned_of(x as int, 8),
{
    proof {
        lemma_pow256_values();
    }
    if x >= 0 {
        x as u64
    } else {
        (x as i128 + 0x1_0000_0000_0000_0000) as u64
    }
}

pub fn i64_of_u64(v: u64) -> (r: i64)
    ensures
        r == signed_of(v as nat, 8),
{
    proof {
        lemma_pow256_values();
    }
    if v >= 0x8000_0000_0000_0000 {
        (v as i128 - 0x1_0000_0000_0000_0000) as i64
    } else {
        v as i64
    }
}

/// Appends the bytes of `b` to `v`.
pub fn append(v: &mut Vec<u8>, b: &[u8])
    ensures
        final(v)@ == old(v)@ + b@,
{
    v.extend_from_slice(b);
    assert(v@ =~= old(v)@ + b@);
}

/// A copy of the bytes of `b` from index `from` up to, not including, index `to`.
pub fn copy_range(b: &[u8], from: usize, to: usize) -> (r: Vec<u8>)
    requires
        from <= to <= b@.len(),
    ensures
        r@ == b@.subrange(from as int, to as int),
{
    slice_to_vec(slice_subrange(b, from, to))
}

/// The number that `s` spells is the number of its first `k` bytes, moved up by the
/// bytes that follow, plus the number of those.
pub proof fn lemma_be_value_split(s: Seq<u8>, k: nat)
    requires
        k <= s.len(),
    ensures
        be_value(s) == be_value(s.subrange(0, k as int)) * pow256((s.len() - k) as nat) + be_value(
            s.subrange(k as int, s.len() as int),
        ),
    decreases s.len(),
{
    let head = s.subrange(0, k as int);
    let tail = s.subrange(k as int, s.len() as int);
    if k == s.len() {
        assert(head =~= s);
        assert(be_value(head) * pow256(0) == be_value(head)) by (nonlinear_arith)
            requires
                pow256(0) == 1,
        ;
    } else {
        let t = s.drop_last();
        lemma_be_value_split(t, k);
        assert(t.subrange(0, k as int) =~= head);
        assert(t.subrange(k as int, t.len() as int) =~= tail.drop_last());
        let a = be_value(head);
        let p = pow256((t.len() - k) as nat);
        let q = pow256((s.len() - k) as nat);
        let c = be_value(tail.drop_last());
        assert((a * p + c) * 256 == a * q + c * 256) by (nonlinear_arith)
            requires
                q == 256 * p,
        ;
    }
}

} // verus!
