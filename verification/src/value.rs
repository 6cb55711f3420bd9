//! Decoders for the values of columns: one for each column type, from the raw bytes of
//! a value to a native value.

use vstd::prelude::*;
use vstd::slice::slice_subrange;
use vstd::utf8::{decode_utf8, valid_utf8};
use crate::endian::{
    be_value, from_n_bytes, i16_of_u16, i32_of_u32, i64_of_u64, i8_of_u8, lemma_be_value_bound,
    lemma_be_value_split, lemma_pow256_monotonic, lemma_pow256_values, pow256, signed_of,
};
use crate::error::Context;
use crate::error::Error;
use crate::primitive::{read_int, signed_at};
use crate::wire::{bytes_at, read_bytes, read_values, text_from, text_of, values_at, views, CBytes};

verus! {

/// The text that `String::from_utf8_lossy` makes of the bytes `b`.
pub uninterp spec fn lossy_text(b: Seq<u8>) -> Seq<char>;

/// `String::from_utf8_lossy` of std, with the result as an owned string. Bytes that
/// are well-formed UTF-8 give the text that they encode; in any others each
/// ill-formed part is replaced by U+FFFD.
#[verifier::external_body]
fn string_from_utf8_lossy(b: &[u8]) -> (r: String)
    ensures
        r@ == lossy_text(b@),
        valid_utf8(b@) ==> r@ == decode_utf8(b@),
{
    String::from_utf8_lossy(b).into_owned()
}

/// The UUID that `uuid::Uuid::from_slice` makes of the sixteen bytes `b`.
pub uninterp spec fn uuid_of(b: Seq<u8>) -> uuid::Uuid;

/// `uuid::Uuid`, a UUID. Nothing is said of what is inside one.
#[verifier::external_type_specification]
#[verifier::external_body]
pub struct ExUuid(uuid::Uuid);

/// `uuid::Uuid::from_slice`. It fails exactly where `b` is not sixteen bytes long, and
/// the UUID that it returns depends on those bytes alone.
#[verifier::external_body]
fn uuid_from_slice(b: &[u8]) -> (r: Option<uuid::Uuid>)
    ensures
        r.is_some() == (b@.len() == 16),
        r.is_some() ==> r.unwrap() == uuid_of(b@),
{
    match uuid::Uuid::from_slice(b) {
        Ok(u) => Some(u),
        Err(_) => None,
    }
}

/// The number in a value of exactly `n` bytes, in two's complement.
pub open spec fn fixed_signed(b: Seq<u8>, n: nat) -> Result<int, Error> {
    if b.len() == n {
        Ok(signed_of(be_value(b), n))
    } else {
        Err(Error::Decode(Context::Width))
    }
}

/// The unsigned number in a value of exactly `n` bytes.
pub open spec fn fixed_unsigned(b: Seq<u8>, n: nat) -> Result<nat, Error> {
    if b.len() == n {
        Ok(be_value(b))
    } else {
        Err(Error::Decode(Context::Width))
    }
}

/// Reads the unsigned number in a value of exactly `n` bytes, at most eight.
pub fn decode_unsigned(bytes: &[u8], n: usize) -> (r: Result<u64, Error>)
    requires
        n <= 8,
    ensures
        match r {
            Ok(v) => fixed_unsigned(bytes@, n as nat) == Ok::<nat, Error>(v as nat),
            Err(e) => fixed_unsigned(bytes@, n as nat) == Err::<nat, Error>(e),
        },
        r.is_ok() ==> r.unwrap() < pow256(n as nat),
{
    if bytes.len() != n {
        return Err(Error::Decode(Context::Width));
    }
    proof {
        lemma_be_value_bound(bytes@);
    }
    Ok(from_n_bytes(bytes))
}

/// A `tinyint`: one byte, signed.
pub fn decode_tinyint(bytes: &[u8]) -> (r: Result<i8, Error>)
    ensures
        match r {
            Ok(v) => fixed_signed(bytes@, 1) == Ok::<int, Error>(v as int),
            Err(e) => fixed_signed(bytes@, 1) == Err::<int, Error>(e),
        },
{
    proof {
        lemma_pow256_values();
    }
    match decode_unsigned(bytes, 1) {
        Ok(v) => Ok(i8_of_u8(v as u8)),
        Err(e) => Err(e),
    }
}

/// A `smallint`: two bytes, signed.
pub fn decode_smallint(bytes: &[u8]) -> (r: Result<i16, Error>)
    ensures
        match r {
            Ok(v) => fixed_signed(bytes@, 2) == Ok::<int, Error>(v as int),
            Err(e) => fixed_signed(bytes@, 2) == Err::<int, Error>(e),
        },
{
    proof {
        lemma_pow256_values();
    }
    match decode_unsigned(bytes, 2) {
        Ok(v) => Ok(i16_of_u16(v as u16)),
        Err(e) => Err(e),
    }
}

/// An `int`: four bytes, signed.
pub fn decode_int(bytes: &[u8]) -> (r: Result<i32, Error>)
    ensures
        match r {
            Ok(v) => fixed_signed(bytes@, 4) == Ok::<int, Error>(v as int),
            Err(e) => fixed_signed(bytes@, 4) == Err::<int, Error>(e),
        },
{
    proof {
        lemma_pow256_values();
    }
    match decode_unsigned(bytes, 4) {
        Ok(v) => Ok(i32_of_u32(v as u32)),
        Err(e) => Err(e),
    }
}

/// A `bigint`: eight bytes, signed.
pub fn decode_bigint(bytes: &[u8]) -> (r: Result<i64, Error>)
    ensures
        match r {
            Ok(v) => fixed_signed(bytes@, 8) == Ok::<int, Error>(v as int),
            Err(e) => fixed_signed(bytes@, 8) == Err::<int, Error>(e),
        },
{
    proof {
        lemma_pow256_values();
    }
    match decode_unsigned(bytes, 8) {
        Ok(v) => Ok(i64_of_u64(v)),
        Err(e) => Err(e),
    }
}

/// A `counter`: as a `bigint`.
pub fn decode_counter(bytes: &[u8]) -> (r: Result<i64, Error>)
    ensures
        match r {
            Ok(v) => fixed_signed(bytes@, 8) == Ok::<int, Error>(v as int),
            Err(e) => fixed_signed(bytes@, 8) == Err::<int, Error>(e),
        },
{
    decode_bigint(bytes)
}

/// A `timestamp`: milliseconds since the epoch, as a `bigint`.
pub fn decode_timestamp(bytes: &[u8]) -> (r: Result<i64, Error>)
    ensures
        match r {
            Ok(v) => fixed_signed(bytes@, 8) == Ok::<int, Error>(v as int),
            Err(e) => fixed_signed(bytes@, 8) == Err::<int, Error>(e),
        },
{
    decode_bigint(bytes)
}

/// A `time`: nanoseconds since midnight, as a `bigint`.
pub fn decode_time(bytes: &[u8]) -> (r: Result<i64, Error>)
    ensures
        match r {
            Ok(v) => fixed_signed(bytes@, 8) == Ok::<int, Error>(v as int),
            Err(e) => fixed_signed(bytes@, 8) == Err::<int, Error>(e),
        },
{
    decode_bigint(bytes)
}

/// A `date`: four bytes, unsigned; days, with the epoch at 2 to the 31.
pub fn decode_date(bytes: &[u8]) -> (r: Result<u32, Error>)
    ensures
        match r {
            Ok(v) => fixed_unsigned(bytes@, 4) == Ok::<nat, Error>(v as nat),
            Err(e) => fixed_unsigned(bytes@, 4) == Err::<nat, Error>(e),
        },
{
    proof {
        lemma_pow256_values();
    }
    match decode_unsigned(bytes, 4) {
        Ok(v) => Ok(v as u32),
        Err(e) => Err(e),
    }
}

/// The bits of a `float`: four bytes that hold an IEEE 754 single, most significant
/// byte first.
pub fn decode_float_bits(bytes: &[u8]) -> (r: Result<u32, Error>)
    ensures
        match r {
            Ok(v) => fixed_unsigned(bytes@, 4) == Ok::<nat, Error>(v as nat),
            Err(e) => fixed_unsigned(bytes@, 4) == Err::<nat, Error>(e),
        },
{
    proof {
        lemma_pow256_values();
    }
    match decode_unsigned(bytes, 4) {
        Ok(v) => Ok(v as u32),
        Err(e) => Err(e),
    }
}

/// The bits of a `double`: eight bytes that hold an IEEE 754 double, most significant
/// byte first.
pub fn decode_double_bits(bytes: &[u8]) -> (r: Result<u64, Error>)
    ensures
        match r {
            Ok(v) => fixed_unsigned(bytes@, 8) == Ok::<nat, Error>(v as nat),
            Err(e) => fixed_unsigned(bytes@, 8) == Err::<nat, Error>(e),
        },
{
    decode_unsigned(bytes, 8)
}

/// What a `boolean` value holds: one byte, false where it is zero.
pub open spec fn boolean_of(b: Seq<u8>) -> Result<bool, Error> {
    if b.len() == 1 {
        Ok(b[0] != 0)
    } else {
        Err(Error::Decode(Context::Width))
    }
}

/// A `boolean`.
pub fn decode_boolean(bytes: &[u8]) -> (r: Result<bool, Error>)
    ensures
        r == boolean_of(bytes@),
{
    if bytes.len() != 1 {
        return Err(Error::Decode(Context::Width));
    }
    Ok(bytes[0] != 0)
}

/// A `blob`: the bytes as they are.
pub fn decode_blob(bytes: &[u8]) -> (r: Result<Vec<u8>, Error>)
    ensures
        r.is_ok(),
        r.unwrap()@ == bytes@,
{
    let v = crate::endian::copy_range(bytes, 0, bytes.len());
    assert(bytes@.subrange(0, bytes@.len() as int) =~= bytes@);
    Ok(v)
}

/// A `varchar`: text in UTF-8; bytes that are no UTF-8 are an error.
pub fn decode_varchar(bytes: &[u8]) -> (r: Result<String, Error>)
    ensures
        match r {
            Ok(t) => text_of(bytes@) == Ok::<Seq<char>, Error>(t@),
            Err(e) => text_of(bytes@) == Err::<Seq<char>, Error>(e),
        },
{
    text_from(bytes)
}

/// A `text`: another name for `varchar`.
pub fn decode_text(bytes: &[u8]) -> (r: Result<String, Error>)
    ensures
        match r {
            Ok(t) => text_of(bytes@) == Ok::<Seq<char>, Error>(t@),
            Err(e) => text_of(bytes@) == Err::<Seq<char>, Error>(e),
        },
{
    text_from(bytes)
}

/// An `ascii` value: the bytes as text. Bytes that are no UTF-8 are not refused; what
/// cannot be read is replaced.
pub fn decode_ascii(bytes: &[u8]) -> (r: Result<String, Error>)
    ensures
        r.is_ok(),
        r.unwrap()@ == lossy_text(bytes@),
        valid_utf8(bytes@) ==> r.unwrap()@ == decode_utf8(bytes@),
{
    Ok(string_from_utf8_lossy(bytes))
}

/// A value of a custom type: the bytes as text, read as an `ascii` value is.
pub fn decode_custom(bytes: &[u8]) -> (r: Result<String, Error>)
    ensures
        r.is_ok(),
        r.unwrap()@ == lossy_text(bytes@),
        valid_utf8(bytes@) ==> r.unwrap()@ == decode_utf8(bytes@),
{
    Ok(string_from_utf8_lossy(bytes))
}

/// What a `uuid` value holds: sixteen bytes.
pub open spec fn uuid_value(b: Seq<u8>) -> Result<uuid::Uuid, Error> {
    if b.len() == 16 {
        Ok(uuid_of(b))
    } else {
        Err(Error::Decode(Context::Width))
    }
}

/// A `uuid`.
pub fn decode_uuid(bytes: &[u8]) -> (r: Result<uuid::Uuid, Error>)
    ensures
        r == uuid_value(bytes@),
{
    match uuid_from_slice(bytes) {
        Some(u) => Ok(u),
        None => Err(Error::Decode(Context::Width)),
    }
}

/// A `timeuuid`: as a `uuid`.
pub fn decode_timeuuid(bytes: &[u8]) -> (r: Result<uuid::Uuid, Error>)
    ensures
        r == uuid_value(bytes@),
{
    decode_uuid(bytes)
}

/// A `varint` that fits 64 bits: one to eight bytes in two's complement.
pub open spec fn varint_of(b: Seq<u8>) -> Result<int, Error> {
    if 1 <= b.len() <= 8 {
        Ok(signed_of(be_value(b), b.len()))
    } else {
        Err(Error::Decode(Context::Width))
    }
}

/// A `varint` as a number of 64 bits. One of more than eight bytes does not fit the
/// result and is an error, as is one of no bytes.
pub fn decode_varint(bytes: &[u8]) -> (r: Result<i64, Error>)
    ensures
        match r {
            Ok(v) => varint_of(bytes@) == Ok::<int, Error>(v as int),
            Err(e) => varint_of(bytes@) == Err::<int, Error>(e),
        },
{
    let n = bytes.len();
    if n < 1 || n > 8 {
        return Err(Error::Decode(Context::Width));
    }
    let v = from_n_bytes(bytes);
    proof {
        lemma_be_value_bound(bytes@);
        lemma_pow256_values();
        lemma_pow256_monotonic(n as nat, 8);
    }
    let limit: u128 = pow256_of(n);
    if 2 * (v as u128) >= limit {
        Ok((v as i128 - limit as i128) as i64)
    } else {
        Ok(v as i64)
    }
}

/// 256 to the power `n`, for `n` up to eight.
pub fn pow256_of(n: usize) -> (r: u128)
    requires
        n <= 8,
    ensures
        r == pow256(n as nat),
{
    proof {
        lemma_pow256_values();
    }
    let mut r: u128 = 1;
    let mut i: usize = 0;
    while i < n
        invariant
            i <= n <= 8,
            r == pow256(i as nat),
            r <= pow256(8),
            pow256(8) == 0x1_0000_0000_0000_0000,
        decreases n - i,
    {
        proof {
            lemma_pow256_monotonic((i + 1) as nat, 8);
        }
        r = r * 256;
        i = i + 1;
    }
    r
}

/// The items of a collection value that has a count in front: an `[int]` `n`, not
/// negative, then `n` values of `[bytes]`, and nothing after them.
pub open spec fn counted_values(b: Seq<u8>, per_item: nat) -> Result<
    Seq<Option<Seq<u8>>>,
    Error,
> {
    match signed_at(b, 0, 4) {
        Err(e) => Err(e),
        Ok((n, p)) => if n < 0 {
            Err(Error::Decode(Context::Length))
        } else {
            match values_at(b, p, (n * per_item) as nat) {
                Err(e) => Err(e),
                Ok((items, next)) => if next == b.len() {
                    Ok(items)
                } else {
                    Err(Error::Decode(Context::Trailing))
                },
            }
        },
    }
}

/// Reads a collection value that has a count in front; each of its items takes
/// `per_item` values of `[bytes]`, one or two.
fn decode_counted(bytes: &[u8], per_item: usize) -> (r: Result<Vec<CBytes>, Error>)
    requires
        1 <= per_item <= 2,
    ensures
        match r {
            Ok(v) => counted_values(bytes@, per_item as nat) == Ok::<
                Seq<Option<Seq<u8>>>,
                Error,
            >(views(v@)),
            Err(e) => counted_values(bytes@, per_item as nat) == Err::<
                Seq<Option<Seq<u8>>>,
                Error,
            >(e),
        },
        r.is_ok() ==> r.unwrap()@.len() as int % (per_item as int) == 0,
{
    let (n, p) = match read_int(bytes, 0) {
        Ok(x) => x,
        Err(e) => {
            return Err(e);
        },
    };
    if n < 0 {
        return Err(Error::Decode(Context::Length));
    }
    let count: usize = if per_item == 1 {
        n as usize
    } else {
        n as usize + n as usize
    };
    assert(count == n * per_item) by (nonlinear_arith)
        requires
            per_item == 1 && count == n || per_item == 2 && count == n + n,
    ;
    match read_values(bytes, p, count) {
        Err(e) => Err(e),
        Ok((items, next)) => {
            if next == bytes.len() {
                Ok(items)
            } else {
                Err(Error::Decode(Context::Trailing))
            }
        },
    }
}

/// A `list`: a count, then that many values.
pub fn decode_list(bytes: &[u8]) -> (r: Result<Vec<CBytes>, Error>)
    ensures
        match r {
            Ok(v) => counted_values(bytes@, 1) == Ok::<Seq<Option<Seq<u8>>>, Error>(views(v@)),
            Err(e) => counted_values(bytes@, 1) == Err::<Seq<Option<Seq<u8>>>, Error>(e),
        },
{
    decode_counted(bytes, 1)
}

/// A `set`: as a `list`.
pub fn decode_set(bytes: &[u8]) -> (r: Result<Vec<CBytes>, Error>)
    ensures
        match r {
            Ok(v) => counted_values(bytes@, 1) == Ok::<Seq<Option<Seq<u8>>>, Error>(views(v@)),
            Err(e) => counted_values(bytes@, 1) == Err::<Seq<Option<Seq<u8>>>, Error>(e),
        },
{
    decode_counted(bytes, 1)
}

/// A `tuple`: a count, then that many values, one for each member.
pub fn decode_tuple(bytes: &[u8]) -> (r: Result<Vec<CBytes>, Error>)
    ensures
        match r {
            Ok(v) => counted_values(bytes@, 1) == Ok::<Seq<Option<Seq<u8>>>, Error>(views(v@)),
            Err(e) => counted_values(bytes@, 1) == Err::<Seq<Option<Seq<u8>>>, Error>(e),
        },
{
    decode_counted(bytes, 1)
}

/// A `map`: a count `n`, then `2n` values: the key and the value of each entry in
/// turn. The result holds them in that order, so an entry's key stands at an even
/// index and its value right after it.
pub fn decode_map(bytes: &[u8]) -> (r: Result<Vec<CBytes>, Error>)
    ensures
        match r {
            Ok(v) => counted_values(bytes@, 2) == Ok::<Seq<Option<Seq<u8>>>, Error>(views(v@)),
            Err(e) => counted_values(bytes@, 2) == Err::<Seq<Option<Seq<u8>>>, Error>(e),
        },
        r.is_ok() ==> r.unwrap()@.len() as int % 2 == 0,
{
    decode_counted(bytes, 2)
}

/// The values of the `count` fields of a user-defined type from `pos` on: one
/// `[bytes]` for each field, in the order of their declaration. Fields for which the
/// input has nothing left are null; after the last field nothing may be left.
pub open spec fn field_values_at(s: Seq<u8>, pos: nat, count: nat) -> Result<
    Seq<Option<Seq<u8>>>,
    Error,
>
    decreases count,
{
    if count == 0 {
        if pos == s.len() {
            Ok(Seq::empty())
        } else {
            Err(Error::Decode(Context::Trailing))
        }
    } else if pos >= s.len() {
        Ok(Seq::new(count, |i: int| None::<Seq<u8>>))
    } else {
        match bytes_at(s, pos) {
            Err(e) => Err(e),
            Ok((v, p)) => match field_values_at(s, p, (count - 1) as nat) {
                Err(e) => Err(e),
                Ok(rest) => Ok(seq![v] + rest),
            },
        }
    }
}

/// A value of a user-defined type with `count` fields.
pub fn decode_udt(bytes: &[u8], count: usize) -> (r: Result<Vec<CBytes>, Error>)
    ensures
        match r {
            Ok(v) => field_values_at(bytes@, 0, count as nat) == Ok::<Seq<Option<Seq<u8>>>, Error>(
                views(v@),
            ),
            Err(e) => field_values_at(bytes@, 0, count as nat) == Err::<Seq<Option<Seq<u8>>>, Error>(e),
        },
        r.is_ok() ==> r.unwrap()@.len() == count,
{
    let mut acc: Vec<CBytes> = Vec::new();
    let mut p: usize = 0;
    let mut i: usize = 0;
    proof {
        assert(views(acc@) =~= Seq::empty());
        match field_values_at(bytes@, 0, count as nat) {
            Ok(rest) => {
                assert(views(acc@) + rest =~= rest);
            },
            Err(_) => {},
        }
    }
    while i < count
        invariant
            i <= count,
            p <= bytes@.len(),
            acc@.len() == i,
            field_values_at(bytes@, 0, count as nat) == match field_values_at(
                bytes@,
                p as nat,
                (count - i) as nat,
            ) {
                Ok(rest) => Ok::<Seq<Option<Seq<u8>>>, Error>(views(acc@) + rest),
                Err(e) => Err::<Seq<Option<Seq<u8>>>, Error>(e),
            },
        decreases count - i,
    {
        let ghost before = acc@;
        if p >= bytes.len() {
            proof {
                let rest = Seq::new((count - i) as nat, |i: int| None::<Seq<u8>>);
                let tail = Seq::new((count - i - 1) as nat, |i: int| None::<Seq<u8>>);
                assert(field_values_at(bytes@, p as nat, (count - i) as nat) == Ok::<
                    Seq<Option<Seq<u8>>>,
                    Error,
                >(rest));
                if count - i - 1 > 0 {
                    assert(field_values_at(bytes@, p as nat, (count - i - 1) as nat) == Ok::<
                        Seq<Option<Seq<u8>>>,
                        Error,
                    >(tail));
                } else {
                    assert(tail =~= Seq::empty());
                }
                assert(views(before.push(CBytes { bytes: None })) =~= views(before) + seq![
                    None::<Seq<u8>>,
                ]);
                assert(views(before) + rest =~= views(before.push(CBytes { bytes: None }))
                    + tail);
            }
            acc.push(CBytes::null());
            assert(acc@[i as int]@ == None::<Seq<u8>>);
            assert(views(acc@) =~= views(before.push(CBytes { bytes: None })));
            i = i + 1;
        } else {
            match read_bytes(bytes, p) {
                Err(e) => {
                    return Err(e);
                },
                Ok((v, next)) => {
                    proof {
                        match field_values_at(bytes@, next as nat, (count - i - 1) as nat) {
                            Ok(rest) => {
                                assert(views(before.push(v)) =~= views(before) + seq![v@]);
                                assert(views(before) + (seq![v@] + rest) =~= views(
                                    before.push(v),
                                ) + rest);
                            },
                            Err(_) => {},
                        }
                    }
                    acc.push(v);
                    p = next;
                    i = i + 1;
                },
            }
        }
    }
    if p != bytes.len() {
        return Err(Error::Decode(Context::Trailing));
    }
    proof {
        assert(views(acc@) + Seq::<Option<Seq<u8>>>::empty() =~= views(acc@));
    }
    Ok(acc)
}

/// An integer of any size: its bytes in two's complement, most significant first.
#[derive(Debug, Clone, PartialEq, Eq)]
pub struct Varint {
    pub bytes: Vec<u8>,
}

impl View for Varint {
    type V = int;

    /// The integer that the bytes stand for.
    open spec fn view(&self) -> int {
        signed_of(be_value(self.bytes@), self.bytes@.len())
    }
}

impl Varint {
    /// This integer as a number of 64 bits, where it has at most eight bytes.
    pub fn to_i64(&self) -> (r: Option<i64>)
        ensures
            match r {
                Some(v) => self.bytes@.len() <= 8 && v == self@,
                None => self.bytes@.len() > 8,
            },
    {
        if self.bytes.len() == 0 {
            proof {
                lemma_pow256_values();
            }
            return Some(0);
        }
        match decode_varint(self.bytes.as_slice()) {
            Ok(v) => Some(v),
            Err(_) => None,
        }
    }
}

/// The integer in a `varint` of any size: at least one byte, in two's complement.
pub open spec fn wide_varint_of(b: Seq<u8>) -> Result<int, Error> {
    if b.len() >= 1 {
        Ok(signed_of(be_value(b), b.len()))
    } else {
        Err(Error::Decode(Context::Width))
    }
}

/// A `varint` of any size. One of no bytes is an error.
pub fn decode_wide_varint(bytes: &[u8]) -> (r: Result<Varint, Error>)
    ensures
        match r {
            Ok(v) => wide_varint_of(bytes@) == Ok::<int, Error>(v@) && v.bytes@ == bytes@,
            Err(e) => wide_varint_of(bytes@) == Err::<int, Error>(e),
        },
{
    if bytes.len() == 0 {
        return Err(Error::Decode(Context::Width));
    }
    let copy = crate::endian::copy_range(bytes, 0, bytes.len());
    assert(bytes@.subrange(0, bytes@.len() as int) =~= bytes@);
    Ok(Varint { bytes: copy })
}

/// A `decimal`: a number of digits after the point, and the digits as an integer.
#[derive(Debug, Clone, PartialEq, Eq)]
pub struct Decimal {
    pub scale: i32,
    pub unscaled: Varint,
}

/// A `decimal` as a mathematical value: it stands for `unscaled` divided by ten to
/// the power `scale`.
pub struct DecimalView {
    pub scale: i32,
    pub unscaled: int,
}

impl View for Decimal {
    type V = DecimalView;

    open spec fn view(&self) -> DecimalView {
        DecimalView { scale: self.scale, unscaled: self.unscaled@ }
    }
}

/// What a `decimal` value holds: the scale in four bytes, then the digits as a `varint`.
pub open spec fn decimal_of(b: Seq<u8>) -> Result<DecimalView, Error> {
    if b.len() < 4 {
        Err(Error::Decode(Context::Truncated))
    } else {
        match wide_varint_of(b.subrange(4, b.len() as int)) {
            Err(e) => Err(e),
            Ok(u) => Ok(
                DecimalView { scale: signed_of(be_value(b.subrange(0, 4)), 4) as i32, unscaled: u },
            ),
        }
    }
}

/// A `decimal`.
pub fn decode_decimal(bytes: &[u8]) -> (r: Result<Decimal, Error>)
    ensures
        match r {
            Ok(d) => decimal_of(bytes@) == Ok::<DecimalView, Error>(d@),
            Err(e) => decimal_of(bytes@) == Err::<DecimalView, Error>(e),
        },
{
    if bytes.len() < 4 {
        return Err(Error::Decode(Context::Truncated));
    }
    let scale = match decode_int(slice_subrange(bytes, 0, 4)) {
        Ok(x) => x,
        Err(e) => {
            return Err(e);
        },
    };
    match decode_wide_varint(slice_subrange(bytes, 4, bytes.len())) {
        Ok(unscaled) => Ok(Decimal { scale, unscaled }),
        Err(e) => Err(e),
    }
}

/// An internet address: the four bytes of an IPv4 address or the sixteen of an IPv6
/// address, as one number, most significant byte first.
#[derive(Debug, Clone, Copy, PartialEq, Eq, Structural)]
pub enum Inet {
    V4(u32),
    V6(u128),
}

/// What an `inet` value holds: four bytes or sixteen.
pub open spec fn inet_of(b: Seq<u8>) -> Result<Inet, Error> {
    if b.len() == 4 {
        Ok(Inet::V4(be_value(b) as u32))
    } else if b.len() == 16 {
        Ok(Inet::V6(be_value(b) as u128))
    } else {
        Err(Error::Decode(Context::Width))
    }
}

/// An `inet`.
pub fn decode_inet(bytes: &[u8]) -> (r: Result<Inet, Error>)
    ensures
        r == inet_of(bytes@),
{
    if bytes.len() == 4 {
        proof {
            lemma_be_value_bound(bytes@);
            lemma_pow256_values();
        }
        Ok(Inet::V4(from_n_bytes(bytes) as u32))
    } else if bytes.len() == 16 {
        let high = from_n_bytes(slice_subrange(bytes, 0, 8));
        let low = from_n_bytes(slice_subrange(bytes, 8, 16));
        proof {
            lemma_pow256_values();
            lemma_be_value_bound(bytes@.subrange(0, 8));
            lemma_be_value_bound(bytes@.subrange(8, 16));
            lemma_be_value_split(bytes@, 8);
            assert(bytes@.subrange(8, bytes@.len() as int) =~= bytes@.subrange(8, 16));
            assert(high * 0x1_0000_0000_0000_0000 + low
                < 0x1_0000_0000_0000_0000_0000_0000_0000_0000) by (nonlinear_arith)
                requires
                    0 <= high <= 0xffff_ffff_ffff_ffff,
                    0 <= low <= 0xffff_ffff_ffff_ffff,
            ;
        }
        let shifted: u128 = high as u128 * 0x1_0000_0000_0000_0000u128;
        Ok(Inet::V6(shifted + low as u128))
    } else {
        Err(Error::Decode(Context::Width))
    }
}

} // verus!
