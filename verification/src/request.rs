//! The bodies of the frames that a client sends.

use vstd::prelude::*;
use vstd::utf8::encode_utf8;
use crate::error::Error;
use crate::frame::{Frame, Opcode, Version, MAX_BODY_LEN};
use crate::primitive::{
    holds_at, lemma_holds_at_concat, lemma_unsigned_round_trip_at, read_short, unsigned_at,
    unsigned_wire, write_short,
};
use crate::wire::{
    all_short, bytes_wire, lemma_string_round_trip, long_string_wire, read_string, string_at,
    string_list_wire, string_wire, texts, write_bytes, write_long_string, write_string,
    write_string_list, CBytes, MAX_INT_LEN, MAX_SHORT_LEN,
};

verus! {

/// How the bodies of frames are compressed.
#[derive(Debug, Clone, Copy, PartialEq, Eq, Structural)]
pub enum Compression {
    Off,
    Lz4,
    Snappy,
}

/// The options of a STARTUP for the compression `c`: the version of CQL, and the name
/// of the algorithm where there is one.
pub open spec fn startup_options(c: Compression) -> Seq<(Seq<char>, Seq<char>)> {
    match c {
        Compression::Off => seq![("CQL_VERSION"@, "3.0.0"@)],
        Compression::Lz4 => seq![("CQL_VERSION"@, "3.0.0"@), ("COMPRESSION"@, "lz4"@)],
        Compression::Snappy => seq![("CQL_VERSION"@, "3.0.0"@), ("COMPRESSION"@, "snappy"@)],
    }
}

/// How the pairs of a `[string map]` are written one after another.
pub open spec fn pairs_wire(m: Seq<(Seq<char>, Seq<char>)>) -> Seq<u8>
    decreases m.len(),
{
    if m.len() == 0 {
        Seq::empty()
    } else {
        string_wire(m[0].0) + string_wire(m[0].1) + pairs_wire(m.drop_first())
    }
}

/// How a `[string map]` is written: a `[short]` count, then each key and its value as
/// two values of `[string]`.
pub open spec fn string_map_wire(m: Seq<(Seq<char>, Seq<char>)>) -> Seq<u8> {
    unsigned_wire(m.len(), 2) + pairs_wire(m)
}

/// The text of a string literal that holds only ASCII takes one byte for each character.
proof fn lemma_ascii_len(t: Seq<char>)
    requires
        vstd::utf8::is_ascii_chars(t),
    ensures
        encode_utf8(t).len() == t.len(),
{
    vstd::utf8::is_ascii_chars_encode_utf8(t);
}

/// Appends one pair of a `[string map]`.
fn write_pair(out: &mut Vec<u8>, key: &str, value: &str)
    requires
        encode_utf8(key@).len() <= MAX_SHORT_LEN,
        encode_utf8(value@).len() <= MAX_SHORT_LEN,
    ensures
        final(out)@ == old(out)@ + (string_wire(key@) + string_wire(value@)),
{
    write_string(out, key);
    write_string(out, value);
    assert(out@ =~= old(out)@ + (string_wire(key@) + string_wire(value@)));
}

/// The body of a STARTUP: the options as a `[string map]`.
pub fn startup_body(c: Compression) -> (r: Vec<u8>)
    ensures
        r@ == string_map_wire(startup_options(c)),
        r@.len() <= MAX_BODY_LEN,
{
    let mut out: Vec<u8> = Vec::new();
    proof {
        reveal_strlit("CQL_VERSION");
        reveal_strlit("3.0.0");
        reveal_strlit("COMPRESSION");
        reveal_strlit("lz4");
        reveal_strlit("snappy");
        lemma_ascii_len("CQL_VERSION"@);
        lemma_ascii_len("3.0.0"@);
        lemma_ascii_len("COMPRESSION"@);
        lemma_ascii_len("lz4"@);
        lemma_ascii_len("snappy"@);
        crate::endian::lemma_be_bytes_len(1, 2);
        crate::endian::lemma_be_bytes_len(2, 2);
        crate::endian::lemma_be_bytes_len(11, 2);
        crate::endian::lemma_be_bytes_len(5, 2);
        crate::endian::lemma_be_bytes_len(3, 2);
        crate::endian::lemma_be_bytes_len(6, 2);
    }
    let ghost m = startup_options(c);
    proof {
        reveal_with_fuel(pairs_wire, 3);
        assert(m[0] == ("CQL_VERSION"@, "3.0.0"@));
    }
    match c {
        Compression::Off => {
            write_short(&mut out, 1);
            write_pair(&mut out, "CQL_VERSION", "3.0.0");
            proof {
                assert(m.drop_first() =~= Seq::empty());
                assert(pairs_wire(m) =~= string_wire("CQL_VERSION"@) + string_wire("3.0.0"@));
            }
        },
        Compression::Lz4 => {
            write_short(&mut out, 2);
            write_pair(&mut out, "CQL_VERSION", "3.0.0");
            write_pair(&mut out, "COMPRESSION", "lz4");
            proof {
                let rest = m.drop_first();
                assert(rest.drop_first() =~= Seq::empty());
                assert(rest[0] == ("COMPRESSION"@, "lz4"@));
                assert(pairs_wire(rest) =~= string_wire("COMPRESSION"@) + string_wire("lz4"@));
                assert(pairs_wire(m) =~= string_wire("CQL_VERSION"@) + string_wire("3.0.0"@)
                    + pairs_wire(rest));
            }
        },
        Compression::Snappy => {
            write_short(&mut out, 2);
            write_pair(&mut out, "CQL_VERSION", "3.0.0");
            write_pair(&mut out, "COMPRESSION", "snappy");
            proof {
                let rest = m.drop_first();
                assert(rest.drop_first() =~= Seq::empty());
                assert(rest[0] == ("COMPRESSION"@, "snappy"@));
                assert(pairs_wire(rest) =~= string_wire("COMPRESSION"@) + string_wire("snappy"@));
                assert(pairs_wire(m) =~= string_wire("CQL_VERSION"@) + string_wire("3.0.0"@)
                    + pairs_wire(rest));
            }
        },
    }
    assert(out@ =~= string_map_wire(m));
    out
}

/// The body of an OPTIONS: nothing.
pub fn options_body() -> (r: Vec<u8>)
    ensures
        r@.len() == 0,
{
    Vec::new()
}

/// The body of a PREPARE: the statement as a `[long string]`.
pub fn prepare_body(cql: &str) -> (r: Vec<u8>)
    requires
        encode_utf8(cql@).len() <= MAX_INT_LEN,
    ensures
        r@ == long_string_wire(cql@),
{
    let mut out: Vec<u8> = Vec::new();
    write_long_string(&mut out, cql);
    out
}

/// The body of an AUTH_RESPONSE: the token as a `[bytes]`.
pub fn auth_response_body(token: &CBytes) -> (r: Vec<u8>)
    requires
        token.well_formed(),
    ensures
        r@ == bytes_wire(token@),
{
    let mut out: Vec<u8> = Vec::new();
    write_bytes(&mut out, token);
    out
}

/// The body of a REGISTER: the kinds of events as a `[string list]`.
pub fn register_body(events: &Vec<String>) -> (r: Vec<u8>)
    requires
        events@.len() <= MAX_SHORT_LEN,
        all_short(texts(events@)),
    ensures
        r@ == string_list_wire(texts(events@)),
{
    let mut out: Vec<u8> = Vec::new();
    write_string_list(&mut out, events);
    out
}

/// A frame of a request with the opcode `opcode` and the body `body`, on stream 0.
pub fn request_frame(opcode: Opcode, flags: u8, body: Vec<u8>) -> (r: Frame)
    ensures
        r.version == Version::Request,
        r.flags == flags,
        r.opcode == opcode,
        r.stream == 0,
        r.body == body,
{
    Frame { version: Version::Request, flags, opcode, stream: 0, body }
}

/// The pairs in `v` as mathematical values.
pub open spec fn pair_views(v: Seq<(String, String)>) -> Seq<(Seq<char>, Seq<char>)> {
    v.map_values(|e: (String, String)| (e.0@, e.1@))
}

/// Whether each key and each value of the pairs `m` fits a `[string]`.
pub open spec fn pairs_fit(m: Seq<(Seq<char>, Seq<char>)>) -> bool {
    forall|i: int|
        0 <= i < m.len() ==> encode_utf8((#[trigger] m[i]).0).len() <= MAX_SHORT_LEN
            && encode_utf8(m[i].1).len() <= MAX_SHORT_LEN
}

/// The `count` pairs of a `[string map]` from `pos` on.
pub open spec fn pairs_at(s: Seq<u8>, pos: nat, count: nat) -> Result<
    (Seq<(Seq<char>, Seq<char>)>, nat),
    Error,
>
    decreases count,
{
    if count == 0 {
        Ok((Seq::empty(), pos))
    } else {
        match string_at(s, pos) {
            Err(e) => Err(e),
            Ok((key, p)) => match string_at(s, p) {
                Err(e) => Err(e),
                Ok((value, p1)) => match pairs_at(s, p1, (count - 1) as nat) {
                    Err(e) => Err(e),
                    Ok((rest, next)) => Ok((seq![(key, value)] + rest, next)),
                },
            },
        }
    }
}

/// The `[string map]` at `pos`: a `[short]` count, then that many pairs.
pub open spec fn string_map_at(s: Seq<u8>, pos: nat) -> Result<
    (Seq<(Seq<char>, Seq<char>)>, nat),
    Error,
> {
    match unsigned_at(s, pos, 2) {
        Err(e) => Err(e),
        Ok((n, p)) => pairs_at(s, p, n),
    }
}

/// Pairs written one after another are read as they were written.
pub proof fn lemma_pairs_round_trip(s: Seq<u8>, pos: nat, m: Seq<(Seq<char>, Seq<char>)>)
    requires
        pairs_fit(m),
        holds_at(s, pos, pairs_wire(m)),
    ensures
        pairs_at(s, pos, m.len()) == Ok::<(Seq<(Seq<char>, Seq<char>)>, nat), Error>(
            (m, pos + pairs_wire(m).len()),
        ),
    decreases m.len(),
{
    if m.len() == 0 {
        assert(m =~= Seq::empty());
    } else {
        let rest = m.drop_first();
        let k = string_wire(m[0].0);
        let v = string_wire(m[0].1);
        assert(encode_utf8(m[0].0).len() <= MAX_SHORT_LEN);
        assert forall|i: int| 0 <= i < rest.len() implies encode_utf8((#[trigger] rest[i]).0).len()
            <= MAX_SHORT_LEN && encode_utf8(rest[i].1).len() <= MAX_SHORT_LEN by {
            assert(rest[i] == m[i + 1]);
        }
        lemma_holds_at_concat(s, pos, k + v, pairs_wire(rest));
        lemma_holds_at_concat(s, pos, k, v);
        lemma_string_round_trip(s, pos, m[0].0);
        lemma_string_round_trip(s, pos + k.len(), m[0].1);
        lemma_pairs_round_trip(s, pos + k.len() + v.len(), rest);
        assert(seq![m[0]] + rest =~= m);
    }
}

/// A `[string map]` of at most 65535 pairs whose keys and values fit a `[string]` is
/// read as it was written.
pub proof fn lemma_string_map_round_trip(s: Seq<u8>, pos: nat, m: Seq<(Seq<char>, Seq<char>)>)
    requires
        m.len() <= MAX_SHORT_LEN,
        pairs_fit(m),
        holds_at(s, pos, string_map_wire(m)),
    ensures
        string_map_at(s, pos) == Ok::<(Seq<(Seq<char>, Seq<char>)>, nat), Error>(
            (m, pos + string_map_wire(m).len()),
        ),
{
    crate::endian::lemma_pow256_values();
    crate::endian::lemma_be_bytes_len(m.len(), 2);
    lemma_holds_at_concat(s, pos, unsigned_wire(m.len(), 2), pairs_wire(m));
    lemma_unsigned_round_trip_at(s, pos, m.len(), 2);
    lemma_pairs_round_trip(s, pos + 2, m);
}

/// Reads `count` pairs of a `[string map]` from `pos` on.
pub fn read_pairs(bytes: &[u8], pos: usize, count: usize) -> (r: Result<
    (Vec<(String, String)>, usize),
    Error,
>)
    requires
        pos <= bytes@.len(),
    ensures
        match r {
            Ok((v, next)) => pairs_at(bytes@, pos as nat, count as nat) == Ok::<
                (Seq<(Seq<char>, Seq<char>)>, nat),
                Error,
            >((pair_views(v@), next as nat)) && pos <= next <= bytes@.len(),
            Err(e) => pairs_at(bytes@, pos as nat, count as nat) == Err::<
                (Seq<(Seq<char>, Seq<char>)>, nat),
                Error,
            >(e),
        },
{
    let mut acc: Vec<(String, String)> = Vec::new();
    let mut p: usize = pos;
    let mut i: usize = 0;
    proof {
        assert(pair_views(acc@) =~= Seq::empty());
        match pairs_at(bytes@, pos as nat, count as nat) {
            Ok((rest, q)) => {
                assert(pair_views(acc@) + rest =~= rest);
            },
            Err(_) => {},
        }
    }
    while i < count
        invariant
            i <= count,
            pos <= p <= bytes@.len(),
            acc@.len() == i,
            pairs_at(bytes@, pos as nat, count as nat) == match pairs_at(
                bytes@,
                p as nat,
                (count - i) as nat,
            ) {
                Ok((rest, q)) => Ok::<(Seq<(Seq<char>, Seq<char>)>, nat), Error>(
                    (pair_views(acc@) + rest, q),
                ),
                Err(e) => Err::<(Seq<(Seq<char>, Seq<char>)>, nat), Error>(e),
            },
        decreases count - i,
    {
        let ghost before = acc@;
        let (key, p1) = match read_string(bytes, p) {
            Ok(x) => x,
            Err(e) => {
                return Err(e);
            },
        };
        match read_string(bytes, p1) {
            Err(e) => {
                return Err(e);
            },
            Ok((value, next)) => {
                proof {
                    match pairs_at(bytes@, next as nat, (count - i - 1) as nat) {
                        Ok((rest, q)) => {
                            assert(pair_views(before.push((key, value))) =~= pair_views(before)
                                + seq![(key@, value@)]);
                            assert(pair_views(before) + (seq![(key@, value@)] + rest)
                                =~= pair_views(before.push((key, value))) + rest);
                        },
                        Err(_) => {},
                    }
                }
                acc.push((key, value));
                p = next;
                i = i + 1;
            },
        }
    }
    proof {
        assert(pair_views(acc@) + Seq::<(Seq<char>, Seq<char>)>::empty() =~= pair_views(acc@));
    }
    Ok((acc, p))
}

/// Reads a `[string map]` at `pos`.
pub fn read_string_map(bytes: &[u8], pos: usize) -> (r: Result<
    (Vec<(String, String)>, usize),
    Error,
>)
    requires
        pos <= bytes@.len(),
    ensures
        match r {
            Ok((v, next)) => string_map_at(bytes@, pos as nat) == Ok::<
                (Seq<(Seq<char>, Seq<char>)>, nat),
                Error,
            >((pair_views(v@), next as nat)) && pos < next <= bytes@.len(),
            Err(e) => string_map_at(bytes@, pos as nat) == Err::<
                (Seq<(Seq<char>, Seq<char>)>, nat),
                Error,
            >(e),
        },
{
    match read_short(bytes, pos) {
        Err(e) => Err(e),
        Ok((n, p)) => read_pairs(bytes, p, n as usize),
    }
}

/// Appends a `[string map]`.
pub fn write_string_map(out: &mut Vec<u8>, m: &Vec<(String, String)>)
    requires
        m@.len() <= MAX_SHORT_LEN,
        pairs_fit(pair_views(m@)),
    ensures
        final(out)@ == old(out)@ + string_map_wire(pair_views(m@)),
{
    write_short(out, m.len() as u16);
    let ghost all = pair_views(m@);
    let ghost start = out@;
    let mut i: usize = 0;
    proof {
        assert(all.subrange(0, all.len() as int) =~= all);
        assert(start + pairs_wire(all) =~= old(out)@ + string_map_wire(all));
    }
    while i < m.len()
        invariant
            i <= m@.len(),
            all == pair_views(m@),
            pairs_fit(all),
            out@ + pairs_wire(all.subrange(i as int, all.len() as int)) == start + pairs_wire(all),
        decreases m@.len() - i,
    {
        let ghost here = all.subrange(i as int, all.len() as int);
        let ghost before = out@;
        proof {
            assert(here[0] == (m@[i as int].0@, m@[i as int].1@));
            assert(all[i as int] == (m@[i as int].0@, m@[i as int].1@));
            assert(here.drop_first() =~= all.subrange(i + 1, all.len() as int));
        }
        write_pair(out, m[i].0.as_str(), m[i].1.as_str());
        proof {
            assert(out@ + pairs_wire(all.subrange(i + 1, all.len() as int)) =~= before
                + pairs_wire(here));
        }
        i = i + 1;
    }
    proof {
        assert(all.subrange(i as int, all.len() as int) =~= Seq::<
            (Seq<char>, Seq<char>),
        >::empty());
        assert(out@ + pairs_wire(Seq::<(Seq<char>, Seq<char>)>::empty()) =~= out@);
    }
}

} // verus!
