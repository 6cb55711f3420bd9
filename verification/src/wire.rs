//! The protocol's length-prefixed values: text, byte strings, and lists and maps of text.

use vstd::prelude::*;
use vstd::utf8::{decode_utf8, encode_utf8, valid_utf8};
use crate::endian::{append, copy_range, lemma_be_bytes_len, lemma_pow256_values, unsigned_of};
use crate::error::Context;
use crate::error::Error;
use crate::primitive::{
    holds_at, lemma_holds_at_concat, lemma_signed_round_trip_at, lemma_unsigned_round_trip_at, read_int, read_short,
    signed_at, signed_wire, take, unsigned_at, unsigned_wire, write_int, write_short,
};

verus! {

/// The largest length that an `[int]` length field can announce.
pub const MAX_INT_LEN: usize = 0x7fff_ffff;

/// The largest length or count that a `[short]` field can announce.
pub const MAX_SHORT_LEN: usize = 0xffff;

/// A `[bytes]` value: a byte string that may be null. Null and empty are different.
#[derive(Debug, Clone, PartialEq, Eq)]
pub struct CBytes {
    pub bytes: Option<Vec<u8>>,
}

impl View for CBytes {
    type V = Option<Seq<u8>>;

    open spec fn view(&self) -> Option<Seq<u8>> {
        match self.bytes {
            Some(b) => Some(b@),
            None => None,
        }
    }
}

impl CBytes {
    /// A value that holds `bytes`; it is present even where `bytes` is empty.
    pub fn new(bytes: Vec<u8>) -> (r: CBytes)
        ensures
            r@ == Some(bytes@),
    {
        CBytes { bytes: Some(bytes) }
    }

    /// The null value.
    pub fn null() -> (r: CBytes)
        ensures
            r@.is_none(),
    {
        CBytes { bytes: None }
    }

    pub fn is_null(&self) -> (r: bool)
        ensures
            r == self@.is_none(),
    {
        self.bytes.is_none()
    }

    /// The bytes of a value that is present, and no bytes for null.
    pub fn as_plain(&self) -> (r: Vec<u8>)
        ensures
            r@ == match self@ {
                Some(b) => b,
                None => Seq::<u8>::empty(),
            },
    {
        match &self.bytes {
            Some(b) => copy_range(b.as_slice(), 0, b.len()),
            None => Vec::new(),
        }
    }

    /// The bytes of a value that is present.
    pub fn as_slice(&self) -> (r: Option<&[u8]>)
        ensures
            match r {
                Some(b) => self@ == Some(b@),
                None => self@.is_none(),
            },
    {
        match &self.bytes {
            Some(b) => Some(b.as_slice()),
            None => None,
        }
    }

    /// A copy of this value.
    pub fn duplicate(&self) -> (r: CBytes)
        ensures
            r@ == self@,
    {
        match &self.bytes {
            Some(b) => CBytes { bytes: Some(copy_range(b.as_slice(), 0, b.len())) },
            None => CBytes { bytes: None },
        }
    }

    /// Whether the length of this value fits an `[int]` length field.
    pub open spec fn well_formed(self) -> bool {
        self@.is_some() ==> self@.unwrap().len() <= MAX_INT_LEN
    }

    /// Tells whether the length of this value fits an `[int]` length field.
    pub fn is_well_formed(&self) -> (r: bool)
        ensures
            r == self.well_formed(),
    {
        match &self.bytes {
            Some(b) => b.len() <= MAX_INT_LEN,
            None => true,
        }
    }

    /// This value as a `[bytes]` on the wire.
    pub fn into_cbytes(&self) -> (r: Vec<u8>)
        requires
            self.well_formed(),
        ensures
            r@ == bytes_wire(self@),
    {
        let mut out: Vec<u8> = Vec::new();
        write_bytes(&mut out, self);
        out
    }
}

/// `String::from_utf8` of std. It succeeds on exactly the byte strings that are
/// well-formed UTF-8, and the text that it returns is the one that they encode.
#[verifier::external_body]
fn string_from_utf8(bytes: Vec<u8>) -> (r: Option<String>)
    ensures
        r.is_some() == valid_utf8(bytes@),
        r.is_some() ==> r.unwrap()@ == decode_utf8(bytes@),
{
    match String::from_utf8(bytes) {
        Ok(s) => Some(s),
        Err(_) => None,
    }
}

/// The text in the bytes `b`.
pub open spec fn text_of(b: Seq<u8>) -> Result<Seq<char>, Error> {
    if valid_utf8(b) {
        Ok(decode_utf8(b))
    } else {
        Err(Error::Decode(Context::Utf8))
    }
}

/// Reads bytes as UTF-8 text.
pub fn text_from(b: &[u8]) -> (r: Result<String, Error>)
    ensures
        match r {
            Ok(t) => text_of(b@) == Ok::<Seq<char>, Error>(t@),
            Err(e) => text_of(b@) == Err::<Seq<char>, Error>(e),
        },
{
    assert(b@.subrange(0, b@.len() as int) =~= b@);
    match string_from_utf8(copy_range(b, 0, b.len())) {
        Some(t) => Ok(t),
        None => Err(Error::Decode(Context::Utf8)),
    }
}

/// The text of `n` bytes at `pos`.
pub open spec fn text_at(s: Seq<u8>, pos: nat, n: nat) -> Result<(Seq<char>, nat), Error> {
    match take(s, pos, n) {
        Err(e) => Err(e),
        Ok((b, next)) => match text_of(b) {
            Ok(t) => Ok((t, next)),
            Err(e) => Err(e),
        },
    }
}

/// The `[string]` at `pos`: a `[short]` `n`, then `n` bytes of UTF-8.
pub open spec fn string_at(s: Seq<u8>, pos: nat) -> Result<(Seq<char>, nat), Error> {
    match unsigned_at(s, pos, 2) {
        Err(e) => Err(e),
        Ok((n, p)) => text_at(s, p, n),
    }
}

/// How a `[string]` is written.
pub open spec fn string_wire(t: Seq<char>) -> Seq<u8> {
    unsigned_wire(encode_utf8(t).len(), 2) + encode_utf8(t)
}

/// The `[long string]` at `pos`: an `[int]` `n`, not negative, then `n` bytes of UTF-8.
pub open spec fn long_string_at(s: Seq<u8>, pos: nat) -> Result<(Seq<char>, nat), Error> {
    match signed_at(s, pos, 4) {
        Err(e) => Err(e),
        Ok((n, p)) => if n < 0 {
            Err(Error::Decode(Context::Length))
        } else {
            text_at(s, p, n as nat)
        },
    }
}

/// How a `[long string]` is written.
pub open spec fn long_string_wire(t: Seq<char>) -> Seq<u8> {
    signed_wire(encode_utf8(t).len() as int, 4) + encode_utf8(t)
}

/// The `[bytes]` at `pos`: an `[int]` `n`, then `n` bytes; null where `n` is negative.
pub open spec fn bytes_at(s: Seq<u8>, pos: nat) -> Result<(Option<Seq<u8>>, nat), Error> {
    match signed_at(s, pos, 4) {
        Err(e) => Err(e),
        Ok((n, p)) => if n < 0 {
            Ok((None, p))
        } else {
            match take(s, p, n as nat) {
                Err(e) => Err(e),
                Ok((b, next)) => Ok((Some(b), next)),
            }
        },
    }
}

/// How a `[bytes]` is written: null has the length -1 and no bytes.
pub open spec fn bytes_wire(v: Option<Seq<u8>>) -> Seq<u8> {
    match v {
        None => signed_wire(-1, 4),
        Some(b) => signed_wire(b.len() as int, 4) + b,
    }
}

/// The `[short bytes]` at `pos`: a `[short]` `n`, then `n` bytes.
pub open spec fn short_bytes_at(s: Seq<u8>, pos: nat) -> Result<(Seq<u8>, nat), Error> {
    match unsigned_at(s, pos, 2) {
        Err(e) => Err(e),
        Ok((n, p)) => take(s, p, n),
    }
}

/// How a `[short bytes]` is written.
pub open spec fn short_bytes_wire(b: Seq<u8>) -> Seq<u8> {
    unsigned_wire(b.len(), 2) + b
}

/// Reads `n` bytes of UTF-8 at `pos`.
pub fn read_text(bytes: &[u8], pos: usize, n: usize) -> (r: Result<(String, usize), Error>)
    requires
        pos <= bytes@.len(),
    ensures
        match r {
            Ok((t, next)) => text_at(bytes@, pos as nat, n as nat) == Ok::<
                (Seq<char>, nat),
                Error,
            >((t@, next as nat)),
            Err(e) => text_at(bytes@, pos as nat, n as nat) == Err::<(Seq<char>, nat), Error>(e),
        },
        r.is_ok() ==> r.unwrap().1 == pos + n && r.unwrap().1 <= bytes@.len(),
{
    if bytes.len() - pos < n {
        return Err(Error::Decode(Context::Truncated));
    }
    match string_from_utf8(copy_range(bytes, pos, pos + n)) {
        Some(t) => Ok((t, pos + n)),
        None => Err(Error::Decode(Context::Utf8)),
    }
}

/// Reads a `[string]` at `pos`.
pub fn read_string(bytes: &[u8], pos: usize) -> (r: Result<(String, usize), Error>)
    requires
        pos <= bytes@.len(),
    ensures
        match r {
            Ok((t, next)) => string_at(bytes@, pos as nat) == Ok::<(Seq<char>, nat), Error>(
                (t@, next as nat),
            ),
            Err(e) => string_at(bytes@, pos as nat) == Err::<(Seq<char>, nat), Error>(e),
        },
        r.is_ok() ==> pos < r.unwrap().1 <= bytes@.len(),
{
    match read_short(bytes, pos) {
        Err(e) => Err(e),
        Ok((n, p)) => read_text(bytes, p, n as usize),
    }
}

/// Reads a `[long string]` at `pos`.
pub fn read_long_string(bytes: &[u8], pos: usize) -> (r: Result<(String, usize), Error>)
    requires
        pos <= bytes@.len(),
    ensures
        match r {
            Ok((t, next)) => long_string_at(bytes@, pos as nat) == Ok::<(Seq<char>, nat), Error>(
                (t@, next as nat),
            ),
            Err(e) => long_string_at(bytes@, pos as nat) == Err::<(Seq<char>, nat), Error>(e),
        },
        r.is_ok() ==> pos < r.unwrap().1 <= bytes@.len(),
{
    match read_int(bytes, pos) {
        Err(e) => Err(e),
        Ok((n, p)) => {
            if n < 0 {
                Err(Error::Decode(Context::Length))
            } else {
                read_text(bytes, p, n as usize)
            }
        },
    }
}

/// Reads a `[bytes]` at `pos`.
pub fn read_bytes(bytes: &[u8], pos: usize) -> (r: Result<(CBytes, usize), Error>)
    requires
        pos <= bytes@.len(),
    ensures
        match r {
            Ok((v, next)) => bytes_at(bytes@, pos as nat) == Ok::<(Option<Seq<u8>>, nat), Error>(
                (v@, next as nat),
            ),
            Err(e) => bytes_at(bytes@, pos as nat) == Err::<(Option<Seq<u8>>, nat), Error>(e),
        },
        r.is_ok() ==> pos < r.unwrap().1 <= bytes@.len(),
{
    match read_int(bytes, pos) {
        Err(e) => Err(e),
        Ok((n, p)) => {
            if n < 0 {
                Ok((CBytes::null(), p))
            } else if bytes.len() - p < n as usize {
                Err(Error::Decode(Context::Truncated))
            } else {
                Ok((CBytes::new(copy_range(bytes, p, p + n as usize)), p + n as usize))
            }
        },
    }
}

/// Reads a `[short bytes]` at `pos`.
pub fn read_short_bytes(bytes: &[u8], pos: usize) -> (r: Result<(Vec<u8>, usize), Error>)
    requires
        pos <= bytes@.len(),
    ensures
        match r {
            Ok((v, next)) => short_bytes_at(bytes@, pos as nat) == Ok::<(Seq<u8>, nat), Error>(
                (v@, next as nat),
            ),
            Err(e) => short_bytes_at(bytes@, pos as nat) == Err::<(Seq<u8>, nat), Error>(e),
        },
        r.is_ok() ==> pos < r.unwrap().1 <= bytes@.len(),
{
    match read_short(bytes, pos) {
        Err(e) => Err(e),
        Ok((n, p)) => {
            if bytes.len() - p < n as usize {
                Err(Error::Decode(Context::Truncated))
            } else {
                Ok((copy_range(bytes, p, p + n as usize), p + n as usize))
            }
        },
    }
}

/// Appends a `[string]`.
pub fn write_string(out: &mut Vec<u8>, t: &str)
    requires
        encode_utf8(t@).len() <= MAX_SHORT_LEN,
    ensures
        final(out)@ == old(out)@ + string_wire(t@),
{
    let b = t.as_bytes();
    write_short(out, b.len() as u16);
    append(out, b);
    assert(out@ =~= old(out)@ + string_wire(t@));
}

/// Appends a `[long string]`.
pub fn write_long_string(out: &mut Vec<u8>, t: &str)
    requires
        encode_utf8(t@).len() <= MAX_INT_LEN,
    ensures
        final(out)@ == old(out)@ + long_string_wire(t@),
{
    let b = t.as_bytes();
    write_int(out, b.len() as i32);
    append(out, b);
    assert(out@ =~= old(out)@ + long_string_wire(t@));
}

/// Appends a `[bytes]`.
pub fn write_bytes(out: &mut Vec<u8>, v: &CBytes)
    requires
        v.well_formed(),
    ensures
        final(out)@ == old(out)@ + bytes_wire(v@),
{
    match &v.bytes {
        None => {
            write_int(out, -1);
        },
        Some(b) => {
            write_int(out, b.len() as i32);
            append(out, b.as_slice());
            assert(out@ =~= old(out)@ + bytes_wire(v@));
        },
    }
}

/// Appends a `[short bytes]`.
pub fn write_short_bytes(out: &mut Vec<u8>, b: &[u8])
    requires
        b@.len() <= MAX_SHORT_LEN,
    ensures
        final(out)@ == old(out)@ + short_bytes_wire(b@),
{
    write_short(out, b.len() as u16);
    append(out, b);
    assert(out@ =~= old(out)@ + short_bytes_wire(b@));
}

/// A `[string]` whose UTF-8 form fits a `[short]` length is read as it was written.
pub proof fn lemma_string_round_trip(s: Seq<u8>, pos: nat, t: Seq<char>)
    requires
        encode_utf8(t).len() <= MAX_SHORT_LEN,
        holds_at(s, pos, string_wire(t)),
    ensures
        string_at(s, pos) == Ok::<(Seq<char>, nat), Error>((t, pos + string_wire(t).len())),
        string_wire(t).len() == 2 + encode_utf8(t).len(),
{
    let e = encode_utf8(t);
    lemma_pow256_values();
    lemma_be_bytes_len(e.len(), 2);
    lemma_holds_at_concat(s, pos, unsigned_wire(e.len(), 2), e);
    lemma_unsigned_round_trip_at(s, pos, e.len(), 2);
    vstd::utf8::encode_utf8_valid_utf8(t);
    vstd::utf8::encode_utf8_decode_utf8(t);
}

/// A `[long string]` whose UTF-8 form fits an `[int]` length is read as it was written.
pub proof fn lemma_long_string_round_trip(s: Seq<u8>, pos: nat, t: Seq<char>)
    requires
        encode_utf8(t).len() <= MAX_INT_LEN,
        holds_at(s, pos, long_string_wire(t)),
    ensures
        long_string_at(s, pos) == Ok::<(Seq<char>, nat), Error>(
            (t, pos + long_string_wire(t).len()),
        ),
        long_string_wire(t).len() == 4 + encode_utf8(t).len(),
{
    let e = encode_utf8(t);
    lemma_pow256_values();
    lemma_be_bytes_len(unsigned_of(e.len() as int, 4), 4);
    lemma_holds_at_concat(s, pos, signed_wire(e.len() as int, 4), e);
    lemma_signed_round_trip_at(s, pos, e.len() as int, 4);
    vstd::utf8::encode_utf8_valid_utf8(t);
    vstd::utf8::encode_utf8_decode_utf8(t);
}

/// A `[bytes]` whose length fits an `[int]` is read as it was written: null as null,
/// empty as empty, and any other with the same bytes.
pub proof fn lemma_bytes_round_trip(s: Seq<u8>, pos: nat, v: Option<Seq<u8>>)
    requires
        v.is_some() ==> v.unwrap().len() <= MAX_INT_LEN,
        holds_at(s, pos, bytes_wire(v)),
    ensures
        bytes_at(s, pos) == Ok::<(Option<Seq<u8>>, nat), Error>((v, pos + bytes_wire(v).len())),
        bytes_wire(v).len() == 4 + (match v {
            Some(b) => b.len(),
            None => 0,
        }),
{
    lemma_pow256_values();
    match v {
        None => {
            lemma_be_bytes_len(unsigned_of(-1, 4), 4);
            lemma_signed_round_trip_at(s, pos, -1, 4);
        },
        Some(b) => {
            lemma_be_bytes_len(unsigned_of(b.len() as int, 4), 4);
            lemma_holds_at_concat(s, pos, signed_wire(b.len() as int, 4), b);
            lemma_signed_round_trip_at(s, pos, b.len() as int, 4);
        },
    }
}

/// On the wire a null `[bytes]`, an empty one and one that holds bytes all differ: the
/// length field is negative for null alone, and zero for the empty one alone.
pub proof fn lemma_bytes_trichotomy(v: Option<Seq<u8>>)
    requires
        v.is_some() ==> v.unwrap().len() <= MAX_INT_LEN,
    ensures
        signed_at(bytes_wire(v), 0, 4).is_ok(),
        signed_at(bytes_wire(v), 0, 4).unwrap().0 < 0 <==> v.is_none(),
        signed_at(bytes_wire(v), 0, 4).unwrap().0 == 0 <==> v == Some(Seq::<u8>::empty()),
        signed_at(bytes_wire(v), 0, 4).unwrap().0 > 0 <==> v.is_some() && v.unwrap().len() > 0,
{
    lemma_pow256_values();
    let w = bytes_wire(v);
    match v {
        None => {
            lemma_be_bytes_len(unsigned_of(-1, 4), 4);
            assert(w.subrange(0, w.len() as int) =~= w);
            lemma_signed_round_trip_at(w, 0, -1, 4);
        },
        Some(b) => {
            lemma_be_bytes_len(unsigned_of(b.len() as int, 4), 4);
            assert(w.subrange(0, w.len() as int) =~= w);
            lemma_holds_at_concat(w, 0, signed_wire(b.len() as int, 4), b);
            lemma_signed_round_trip_at(w, 0, b.len() as int, 4);
            if b.len() == 0 {
                assert(b =~= Seq::<u8>::empty());
            }
        },
    }
}

/// A `[short bytes]` whose length fits a `[short]` is read as it was written.
pub proof fn lemma_short_bytes_round_trip(s: Seq<u8>, pos: nat, b: Seq<u8>)
    requires
        b.len() <= MAX_SHORT_LEN,
        holds_at(s, pos, short_bytes_wire(b)),
    ensures
        short_bytes_at(s, pos) == Ok::<(Seq<u8>, nat), Error>(
            (b, pos + short_bytes_wire(b).len()),
        ),
        short_bytes_wire(b).len() == 2 + b.len(),
{
    lemma_pow256_values();
    lemma_be_bytes_len(b.len(), 2);
    lemma_holds_at_concat(s, pos, unsigned_wire(b.len(), 2), b);
    lemma_unsigned_round_trip_at(s, pos, b.len(), 2);
}

/// The values of `v` as mathematical values.
pub open spec fn views(v: Seq<CBytes>) -> Seq<Option<Seq<u8>>> {
    v.map_values(|c: CBytes| c@)
}

/// The `count` values of `[bytes]` that follow one another from `pos` on.
pub open spec fn values_at(s: Seq<u8>, pos: nat, count: nat) -> Result<
    (Seq<Option<Seq<u8>>>, nat),
    Error,
>
    decreases count,
{
    if count == 0 {
        Ok((Seq::empty(), pos))
    } else {
        match bytes_at(s, pos) {
            Err(e) => Err(e),
            Ok((v, p)) => match values_at(s, p, (count - 1) as nat) {
                Err(e) => Err(e),
                Ok((rest, next)) => Ok((seq![v] + rest, next)),
            },
        }
    }
}

/// Where `count` values can be read, that is how many come out.
pub proof fn lemma_values_at_len(s: Seq<u8>, pos: nat, count: nat)
    ensures
        values_at(s, pos, count).is_ok() ==> values_at(s, pos, count).unwrap().0.len() == count
            && pos <= values_at(s, pos, count).unwrap().1,
    decreases count,
{
    if count > 0 {
        match bytes_at(s, pos) {
            Err(e) => {},
            Ok((v, p)) => {
                lemma_values_at_len(s, p, (count - 1) as nat);
            },
        }
    }
}

/// Reads `count` values of `[bytes]` from `pos` on.
pub fn read_values(bytes: &[u8], pos: usize, count: usize) -> (r: Result<
    (Vec<CBytes>, usize),
    Error,
>)
    requires
        pos <= bytes@.len(),
    ensures
        match r {
            Ok((v, next)) => values_at(bytes@, pos as nat, count as nat) == Ok::<
                (Seq<Option<Seq<u8>>>, nat),
                Error,
            >((views(v@), next as nat)),
            Err(e) => values_at(bytes@, pos as nat, count as nat) == Err::<
                (Seq<Option<Seq<u8>>>, nat),
                Error,
            >(e),
        },
        r.is_ok() ==> r.unwrap().0@.len() == count && pos <= r.unwrap().1 <= bytes@.len(),
{
    let mut acc: Vec<CBytes> = Vec::new();
    let mut p: usize = pos;
    let mut i: usize = 0;
    proof {
        assert(views(acc@) =~= Seq::empty());
        match values_at(bytes@, pos as nat, count as nat) {
            Ok((rest, q)) => {
                assert(views(acc@) + rest =~= rest);
            },
            Err(_) => {},
        }
    }
    while i < count
        invariant
            i <= count,
            pos <= p <= bytes@.len(),
            acc@.len() == i,
            values_at(bytes@, pos as nat, count as nat) == match values_at(
                bytes@,
                p as nat,
                (count - i) as nat,
            ) {
                Ok((rest, q)) => Ok::<(Seq<Option<Seq<u8>>>, nat), Error>(
                    (views(acc@) + rest, q),
                ),
                Err(e) => Err::<(Seq<Option<Seq<u8>>>, nat), Error>(e),
            },
        decreases count - i,
    {
        let ghost before = acc@;
        match read_bytes(bytes, p) {
            Err(e) => {
                return Err(e);
            },
            Ok((v, next)) => {
                proof {
                    match values_at(bytes@, next as nat, (count - i - 1) as nat) {
                        Ok((rest, q)) => {
                            assert(views(before.push(v)) =~= views(before) + seq![v@]);
                            assert(views(before) + (seq![v@] + rest) =~= views(before.push(v))
                                + rest);
                        },
                        Err(_) => {},
                    }
                }
                acc.push(v);
                p = next;
                i = i + 1;
            },
        }
    }
    proof {
        assert(views(acc@) + Seq::<Option<Seq<u8>>>::empty() =~= views(acc@));
    }
    Ok((acc, p))
}

/// Reading `count` values can fail in one way only, by running out of input; and where
/// it succeeds, the values took at least four bytes each.
pub proof fn lemma_values_at_needs(s: Seq<u8>, pos: nat, count: nat)
    ensures
        match values_at(s, pos, count) {
            Ok((items, next)) => pos + 4 * count <= next && (count > 0 ==> next <= s.len()),
            Err(e) => e == Error::Decode(Context::Truncated),
        },
    decreases count,
{
    if count > 0 {
        match bytes_at(s, pos) {
            Err(e) => {},
            Ok((v, p)) => {
                lemma_values_at_needs(s, p, (count - 1) as nat);
            },
        }
    }
}

/// The texts in `v` as sequences of characters.
pub open spec fn texts(v: Seq<String>) -> Seq<Seq<char>> {
    v.map_values(|t: String| t@)
}

/// The `count` values of `[string]` that follow one another from `pos` on.
pub open spec fn strings_at(s: Seq<u8>, pos: nat, count: nat) -> Result<
    (Seq<Seq<char>>, nat),
    Error,
>
    decreases count,
{
    if count == 0 {
        Ok((Seq::empty(), pos))
    } else {
        match string_at(s, pos) {
            Err(e) => Err(e),
            Ok((t, p)) => match strings_at(s, p, (count - 1) as nat) {
                Err(e) => Err(e),
                Ok((rest, next)) => Ok((seq![t] + rest, next)),
            },
        }
    }
}

/// The `[string list]` at `pos`: a `[short]` count, then that many values of `[string]`.
pub open spec fn string_list_at(s: Seq<u8>, pos: nat) -> Result<(Seq<Seq<char>>, nat), Error> {
    match unsigned_at(s, pos, 2) {
        Err(e) => Err(e),
        Ok((n, p)) => strings_at(s, p, n),
    }
}

/// How values of `[string]` are written one after another.
pub open spec fn strings_wire(ts: Seq<Seq<char>>) -> Seq<u8>
    decreases ts.len(),
{
    if ts.len() == 0 {
        Seq::empty()
    } else {
        string_wire(ts[0]) + strings_wire(ts.drop_first())
    }
}

/// How a `[string list]` is written.
pub open spec fn string_list_wire(ts: Seq<Seq<char>>) -> Seq<u8> {
    unsigned_wire(ts.len(), 2) + strings_wire(ts)
}

/// Whether each of the texts `ts` fits a `[string]`.
pub open spec fn all_short(ts: Seq<Seq<char>>) -> bool {
    forall|i: int| 0 <= i < ts.len() ==> encode_utf8(#[trigger] ts[i]).len() <= MAX_SHORT_LEN
}

/// Values of `[string]` written one after another are read as they were written.
pub proof fn lemma_strings_round_trip(s: Seq<u8>, pos: nat, ts: Seq<Seq<char>>)
    requires
        all_short(ts),
        holds_at(s, pos, strings_wire(ts)),
    ensures
        strings_at(s, pos, ts.len()) == Ok::<(Seq<Seq<char>>, nat), Error>(
            (ts, pos + strings_wire(ts).len()),
        ),
    decreases ts.len(),
{
    if ts.len() == 0 {
        assert(ts =~= Seq::empty());
    } else {
        let rest = ts.drop_first();
        assert(encode_utf8(ts[0]).len() <= MAX_SHORT_LEN);
        assert forall|i: int| 0 <= i < rest.len() implies encode_utf8(#[trigger] rest[i]).len()
            <= MAX_SHORT_LEN by {
            assert(rest[i] == ts[i + 1]);
        }
        lemma_holds_at_concat(s, pos, string_wire(ts[0]), strings_wire(rest));
        lemma_string_round_trip(s, pos, ts[0]);
        lemma_strings_round_trip(s, pos + string_wire(ts[0]).len(), rest);
        assert(seq![ts[0]] + rest =~= ts);
    }
}

/// A `[string list]` of at most 65535 texts, each of which fits a `[string]`, is read
/// as it was written.
pub proof fn lemma_string_list_round_trip(s: Seq<u8>, pos: nat, ts: Seq<Seq<char>>)
    requires
        ts.len() <= MAX_SHORT_LEN,
        all_short(ts),
        holds_at(s, pos, string_list_wire(ts)),
    ensures
        string_list_at(s, pos) == Ok::<(Seq<Seq<char>>, nat), Error>(
            (ts, pos + string_list_wire(ts).len()),
        ),
{
    lemma_pow256_values();
    lemma_be_bytes_len(ts.len(), 2);
    lemma_holds_at_concat(s, pos, unsigned_wire(ts.len(), 2), strings_wire(ts));
    lemma_unsigned_round_trip_at(s, pos, ts.len(), 2);
    lemma_strings_round_trip(s, pos + 2, ts);
}

/// Reads `count` values of `[string]` from `pos` on.
pub fn read_strings(bytes: &[u8], pos: usize, count: usize) -> (r: Result<
    (Vec<String>, usize),
    Error,
>)
    requires
        pos <= bytes@.len(),
    ensures
        match r {
            Ok((v, next)) => strings_at(bytes@, pos as nat, count as nat) == Ok::<
                (Seq<Seq<char>>, nat),
                Error,
            >((texts(v@), next as nat)) && pos <= next <= bytes@.len() && v@.len() == count,
            Err(e) => strings_at(bytes@, pos as nat, count as nat) == Err::<
                (Seq<Seq<char>>, nat),
                Error,
            >(e),
        },
{
    let mut acc: Vec<String> = Vec::new();
    let mut p: usize = pos;
    let mut i: usize = 0;
    proof {
        assert(texts(acc@) =~= Seq::empty());
        match strings_at(bytes@, pos as nat, count as nat) {
            Ok((rest, q)) => {
                assert(texts(acc@) + rest =~= rest);
            },
            Err(_) => {},
        }
    }
    while i < count
        invariant
            i <= count,
            pos <= p <= bytes@.len(),
            acc@.len() == i,
            strings_at(bytes@, pos as nat, count as nat) == match strings_at(
                bytes@,
                p as nat,
                (count - i) as nat,
            ) {
                Ok((rest, q)) => Ok::<(Seq<Seq<char>>, nat), Error>((texts(acc@) + rest, q)),
                Err(e) => Err::<(Seq<Seq<char>>, nat), Error>(e),
            },
        decreases count - i,
    {
        let ghost before = acc@;
        match read_string(bytes, p) {
            Err(e) => {
                return Err(e);
            },
            Ok((t, next)) => {
                proof {
                    match strings_at(bytes@, next as nat, (count - i - 1) as nat) {
                        Ok((rest, q)) => {
                            assert(texts(before.push(t)) =~= texts(before) + seq![t@]);
                            assert(texts(before) + (seq![t@] + rest) =~= texts(before.push(t))
                                + rest);
                        },
                        Err(_) => {},
                    }
                }
                acc.push(t);
                p = next;
                i = i + 1;
            },
        }
    }
    proof {
        assert(texts(acc@) + Seq::<Seq<char>>::empty() =~= texts(acc@));
    }
    Ok((acc, p))
}

/// Reads a `[string list]` at `pos`.
pub fn read_string_list(bytes: &[u8], pos: usize) -> (r: Result<(Vec<String>, usize), Error>)
    requires
        pos <= bytes@.len(),
    ensures
        match r {
            Ok((v, next)) => string_list_at(bytes@, pos as nat) == Ok::<
                (Seq<Seq<char>>, nat),
                Error,
            >((texts(v@), next as nat)) && pos < next <= bytes@.len(),
            Err(e) => string_list_at(bytes@, pos as nat) == Err::<(Seq<Seq<char>>, nat), Error>(e),
        },
{
    match read_short(bytes, pos) {
        Err(e) => Err(e),
        Ok((n, p)) => read_strings(bytes, p, n as usize),
    }
}

/// Appends a `[string list]`.
pub fn write_string_list(out: &mut Vec<u8>, ts: &Vec<String>)
    requires
        ts@.len() <= MAX_SHORT_LEN,
        all_short(texts(ts@)),
    ensures
        final(out)@ == old(out)@ + string_list_wire(texts(ts@)),
{
    write_short(out, ts.len() as u16);
    let ghost all = texts(ts@);
    let ghost start = out@;
    let mut i: usize = 0;
    proof {
        assert(all.subrange(0, all.len() as int) =~= all);
        assert(start + strings_wire(all) =~= old(out)@ + string_list_wire(all));
    }
    while i < ts.len()
        invariant
            i <= ts@.len(),
            all == texts(ts@),
            all_short(all),
            out@ + strings_wire(all.subrange(i as int, all.len() as int)) == start + strings_wire(
                all,
            ),
        decreases ts@.len() - i,
    {
        let ghost here = all.subrange(i as int, all.len() as int);
        let ghost before = out@;
        proof {
            assert(here[0] == ts@[i as int]@);
            assert(all[i as int] == ts@[i as int]@);
            assert(here.drop_first() =~= all.subrange(i + 1, all.len() as int));
        }
        write_string(out, ts[i].as_str());
        proof {
            assert(out@ + strings_wire(all.subrange(i + 1, all.len() as int)) =~= before
                + strings_wire(here));
        }
        i = i + 1;
    }
    proof {
        assert(all.subrange(i as int, all.len() as int) =~= Seq::<Seq<char>>::empty());
        assert(out@ + strings_wire(Seq::<Seq<char>>::empty()) =~= out@);
    }
}

/// Tells whether the text `t` fits a `[string]`.
pub fn fits_short(t: &str) -> (r: bool)
    ensures
        r == (encode_utf8(t@).len() <= MAX_SHORT_LEN),
{
    t.as_bytes().len() <= MAX_SHORT_LEN
}

/// Tells whether the text `t` fits a `[long string]`.
pub fn fits_long(t: &str) -> (r: bool)
    ensures
        r == (encode_utf8(t@).len() <= MAX_INT_LEN),
{
    t.as_bytes().len() <= MAX_INT_LEN
}

/// Tells whether the texts `ts` can be written as a `[string list]`.
pub fn fit_string_list(ts: &Vec<String>) -> (r: bool)
    ensures
        r == (ts@.len() <= MAX_SHORT_LEN && all_short(texts(ts@))),
{
    if ts.len() > MAX_SHORT_LEN {
        return false;
    }
    let mut i: usize = 0;
    while i < ts.len()
        invariant
            i <= ts@.len(),
            ts@.len() <= MAX_SHORT_LEN,
            forall|j: int| 0 <= j < i ==> encode_utf8(#[trigger] texts(ts@)[j]).len() <= MAX_SHORT_LEN,
        decreases ts@.len() - i,
    {
        if !fits_short(ts[i].as_str()) {
            assert(texts(ts@)[i as int] == ts@[i as int]@);
            return false;
        }
        assert(texts(ts@)[i as int] == ts@[i as int]@);
        i = i + 1;
    }
    true
}

} // verus!
