//! How the description of a column's type is read from the wire.

use vstd::prelude::*;
use crate::column::{
    fields_model, tuple_model, CUdt, ColType, ColTypeOption, ColTypeOptionValue, TypeView,
    UdtView, ValueView,
};
use crate::error::{Context, Error};
use crate::primitive::{read_short, unsigned_at};
use crate::wire::{read_string, string_at};

verus! {

/// The description of a type at `pos`: the `[short]` code of the type and then, for a
/// custom type, its class name as a `[string]`; for a list or a set, the description
/// of the items' type; for a map, those of the keys' and of the values' types; for a
/// user-defined type, its keyspace and its name as `[string]`s, a `[short]` count and
/// for each field its name and the description of its type; for a tuple, a `[short]`
/// count and the descriptions of the members' types; for any other type, nothing.
pub open spec fn type_at(s: Seq<u8>, pos: nat) -> Result<(TypeView, nat), Error>
    decreases s.len() - pos, 1nat,
{
    match unsigned_at(s, pos, 2) {
        Err(e) => Err(e),
        Ok((code, p)) => match ColType::of_code(code as u16) {
            None => Err(Error::Decode(Context::UnknownCode)),
            Some(id) => type_at_after(s, p, id),
        },
    }
}

/// The description of a type whose code `id` ends at `pos`.
pub open spec fn type_at_after(s: Seq<u8>, pos: nat, id: ColType) -> Result<(TypeView, nat), Error>
    decreases s.len() - pos, 5nat,
{
    match id {
        ColType::Custom => match string_at(s, pos) {
            Err(e) => Err(e),
            Ok((name, next)) => Ok(
                (TypeView { id: ColType::Custom, value: Some(ValueView::CString(name)) }, next),
            ),
        },
        ColType::List => match type_at(s, pos) {
            Err(e) => Err(e),
            Ok((t, next)) => Ok(
                (TypeView { id: ColType::List, value: Some(ValueView::CList(Box::new(t))) }, next),
            ),
        },
        ColType::CSet => match type_at(s, pos) {
            Err(e) => Err(e),
            Ok((t, next)) => Ok(
                (TypeView { id: ColType::CSet, value: Some(ValueView::CSet(Box::new(t))) }, next),
            ),
        },
        ColType::CMap => match types_at(s, pos, 2) {
            Err(e) => Err(e),
            Ok((ts, next)) => Ok(
                (
                    TypeView {
                        id: ColType::CMap,
                        value: Some(ValueView::CMap(Box::new(ts[0]), Box::new(ts[1]))),
                    },
                    next,
                ),
            ),
        },
        ColType::Udt => match udt_at(s, pos) {
            Err(e) => Err(e),
            Ok((u, next)) => Ok(
                (TypeView { id: ColType::Udt, value: Some(ValueView::UdtType(u)) }, next),
            ),
        },
        ColType::Tuple => match unsigned_at(s, pos, 2) {
            Err(e) => Err(e),
            Ok((n, p1)) => match types_at(s, p1, n) {
                Err(e) => Err(e),
                Ok((ts, next)) => Ok(
                    (TypeView { id: ColType::Tuple, value: Some(ValueView::TupleType(ts)) }, next),
                ),
            },
        },
        _ => Ok((TypeView { id, value: None }, pos)),
    }
}

/// The user-defined type at `pos`: its keyspace and its name, as two values of
/// `[string]`, a `[short]` count, and that many fields.
pub open spec fn udt_at(s: Seq<u8>, pos: nat) -> Result<(UdtView, nat), Error>
    decreases s.len() - pos, 0nat,
{
    match string_at(s, pos) {
        Err(e) => Err(e),
        Ok((ks, p1)) => match string_at(s, p1) {
            Err(e) => Err(e),
            Ok((udt_name, p2)) => match unsigned_at(s, p2, 2) {
                Err(e) => Err(e),
                Ok((n, p3)) => match fields_at(s, p3, n) {
                    Err(e) => Err(e),
                    Ok((descriptions, next)) => Ok(
                        (UdtView { ks, udt_name, descriptions }, next),
                    ),
                },
            },
        },
    }
}

/// The `count` descriptions of types that follow one another from `pos` on. Each of
/// them takes up some bytes.
pub open spec fn types_at(s: Seq<u8>, pos: nat, count: nat) -> Result<(Seq<TypeView>, nat), Error>
    decreases s.len() - pos, 2 + count,
{
    if count == 0 {
        Ok((Seq::empty(), pos))
    } else {
        match type_at(s, pos) {
            Err(e) => Err(e),
            Ok((t, p)) => if p <= pos || p > s.len() {
                Err(Error::Decode(Context::Metadata))
            } else {
                match types_at(s, p, (count - 1) as nat) {
                    Err(e) => Err(e),
                    Ok((rest, next)) => Ok((seq![t] + rest, next)),
                }
            },
        }
    }
}

/// The `count` fields of a user-defined type from `pos` on: for each its name, as a
/// `[string]`, and the description of its type.
pub open spec fn fields_at(s: Seq<u8>, pos: nat, count: nat) -> Result<
    (Seq<(Seq<char>, TypeView)>, nat),
    Error,
>
    decreases s.len() - pos, 2 + count,
{
    if count == 0 {
        Ok((Seq::empty(), pos))
    } else {
        match string_at(s, pos) {
            Err(e) => Err(e),
            Ok((name, p)) => match type_at(s, p) {
                Err(e) => Err(e),
                Ok((t, p1)) => if p1 <= pos || p1 > s.len() {
                    Err(Error::Decode(Context::Metadata))
                } else {
                    match fields_at(s, p1, (count - 1) as nat) {
                        Err(e) => Err(e),
                        Ok((rest, next)) => Ok((seq![(name, t)] + rest, next)),
                    }
                },
            },
        }
    }
}

/// A description that can be read takes at least two bytes, ends inside the input,
/// and holds beside its code what the code calls for.
pub proof fn lemma_type_at(s: Seq<u8>, pos: nat)
    ensures
        type_at(s, pos).is_ok() ==> pos + 2 <= type_at(s, pos).unwrap().1 <= s.len() && type_at(
            s,
            pos,
        ).unwrap().0.consistent(),
    decreases s.len() - pos, 1nat,
{
    match unsigned_at(s, pos, 2) {
        Err(e) => {},
        Ok((code, p)) => match ColType::of_code(code as u16) {
            None => {},
            Some(id) => {
                lemma_type_at_after(s, p, id);
            },
        },
    }
}

/// What follows the code in a description that can be read ends inside the input, and
/// is what the code calls for.
pub proof fn lemma_type_at_after(s: Seq<u8>, pos: nat, id: ColType)
    requires
        pos <= s.len(),
    ensures
        type_at_after(s, pos, id).is_ok() ==> pos <= type_at_after(s, pos, id).unwrap().1
            <= s.len() && type_at_after(s, pos, id).unwrap().0.consistent(),
    decreases s.len() - pos, 5nat,
{
    match id {
        ColType::Custom => {},
        ColType::List => {
            lemma_type_at(s, pos);
        },
        ColType::CSet => {
            lemma_type_at(s, pos);
        },
        ColType::CMap => {
            lemma_types_at(s, pos, 2);
        },
        ColType::Udt => {
            lemma_udt_at(s, pos);
        },
        ColType::Tuple => match unsigned_at(s, pos, 2) {
            Err(e) => {},
            Ok((n, p1)) => {
                lemma_types_at(s, p1, n);
            },
        },
        _ => {},
    }
}

/// A user-defined type that can be read ends inside the input, and the type of each
/// of its fields holds what its code calls for.
pub proof fn lemma_udt_at(s: Seq<u8>, pos: nat)
    requires
        pos <= s.len(),
    ensures
        udt_at(s, pos).is_ok() ==> {
            let (u, next) = udt_at(s, pos).unwrap();
            &&& pos < next <= s.len()
            &&& forall|i: int|
                0 <= i < u.descriptions.len() ==> (#[trigger] u.descriptions[i]).1.consistent()
        },
    decreases s.len() - pos, 0nat,
{
    match string_at(s, pos) {
        Err(e) => {},
        Ok((ks, p1)) => match string_at(s, p1) {
            Err(e) => {},
            Ok((udt_name, p2)) => match unsigned_at(s, p2, 2) {
                Err(e) => {},
                Ok((n, p3)) => {
                    lemma_fields_at(s, p3, n);
                },
            },
        },
    }
}

/// Where `count` descriptions can be read, that many come out, each of them holds
/// what its code calls for, and they end inside the input.
pub proof fn lemma_types_at(s: Seq<u8>, pos: nat, count: nat)
    requires
        pos <= s.len(),
    ensures
        types_at(s, pos, count).is_ok() ==> {
            let (ts, next) = types_at(s, pos, count).unwrap();
            &&& ts.len() == count
            &&& pos <= next <= s.len()
            &&& forall|i: int| 0 <= i < ts.len() ==> (#[trigger] ts[i]).consistent()
        },
    decreases s.len() - pos, 2 + count,
{
    if count > 0 {
        lemma_type_at(s, pos);
        match type_at(s, pos) {
            Err(e) => {},
            Ok((t, p)) => {
                lemma_types_at(s, p, (count - 1) as nat);
            },
        }
    }
}

/// Where `count` fields can be read, that many come out, the type of each holds what
/// its code calls for, and they end inside the input.
pub proof fn lemma_fields_at(s: Seq<u8>, pos: nat, count: nat)
    requires
        pos <= s.len(),
    ensures
        fields_at(s, pos, count).is_ok() ==> {
            let (fs, next) = fields_at(s, pos, count).unwrap();
            &&& fs.len() == count
            &&& pos <= next <= s.len()
            &&& forall|i: int| 0 <= i < fs.len() ==> (#[trigger] fs[i]).1.consistent()
        },
    decreases s.len() - pos, 2 + count,
{
    if count > 0 {
        match string_at(s, pos) {
            Err(e) => {},
            Ok((name, p)) => {
                lemma_type_at(s, p);
                match type_at(s, p) {
                    Err(e) => {},
                    Ok((t, p1)) => {
                        lemma_fields_at(s, p1, (count - 1) as nat);
                    },
                }
            },
        }
    }
}

/// Reads the description of a type at `pos`.
pub fn read_type(bytes: &[u8], pos: usize) -> (r: Result<(ColTypeOption, usize), Error>)
    requires
        pos <= bytes@.len(),
    ensures
        match r {
            Ok((t, next)) => type_at(bytes@, pos as nat) == Ok::<(TypeView, nat), Error>(
                (t@, next as nat),
            ) && pos < next <= bytes@.len() && t@.consistent(),
            Err(e) => type_at(bytes@, pos as nat) == Err::<(TypeView, nat), Error>(e),
        },
    decreases bytes@.len() - pos, 1nat,
{
    let (code, p) = match read_short(bytes, pos) {
        Ok(x) => x,
        Err(e) => {
            return Err(e);
        },
    };
    let id = match ColType::from_short(code) {
        Ok(id) => id,
        Err(e) => {
            return Err(e);
        },
    };
    let r = match read_payload(bytes, p, id) {
        Err(e) => Err(e),
        Ok((value, next)) => Ok((ColTypeOption { id, value }, next)),
    };
    proof {
        lemma_type_at(bytes@, pos as nat);
    }
    r
}

/// Reads what follows the code `id` in the description of a type.
fn read_payload(bytes: &[u8], pos: usize, id: ColType) -> (r: Result<
    (Option<ColTypeOptionValue>, usize),
    Error,
>)
    requires
        pos <= bytes@.len(),
    ensures
        match r {
            Ok((v, next)) => type_at_after(bytes@, pos as nat, id) == Ok::<(TypeView, nat), Error>(
                ((ColTypeOption { id, value: v })@, next as nat),
            ) && pos <= next <= bytes@.len(),
            Err(e) => type_at_after(bytes@, pos as nat, id) == Err::<(TypeView, nat), Error>(e),
        },
    decreases bytes@.len() - pos, 5nat,
{
    match id {
        ColType::Custom => match read_string(bytes, pos) {
            Err(e) => Err(e),
            Ok((name, next)) => Ok((Some(ColTypeOptionValue::CString(name)), next)),
        },
        ColType::List => match read_type(bytes, pos) {
            Err(e) => Err(e),
            Ok((t, next)) => Ok((Some(ColTypeOptionValue::CList(Box::new(t))), next)),
        },
        ColType::CSet => match read_type(bytes, pos) {
            Err(e) => Err(e),
            Ok((t, next)) => Ok((Some(ColTypeOptionValue::CSet(Box::new(t))), next)),
        },
        ColType::CMap => match read_types(bytes, pos, 2) {
            Err(e) => Err(e),
            Ok((ts, next)) => {
                let mut ts = ts;
                let ghost both = ts@;
                let v = ts.pop().unwrap();
                let k = ts.pop().unwrap();
                assert(k == both[0] && v == both[1]);
                assert(tuple_model(both)[0] == k@ && tuple_model(both)[1] == v@);
                Ok((Some(ColTypeOptionValue::CMap(Box::new(k), Box::new(v))), next))
            },
        },
        ColType::Udt => match read_udt(bytes, pos) {
            Err(e) => Err(e),
            Ok((u, next)) => Ok((Some(ColTypeOptionValue::UdtType(u)), next)),
        },
        ColType::Tuple => {
            let (n, p1) = match read_short(bytes, pos) {
                Ok(x) => x,
                Err(e) => {
                    return Err(e);
                },
            };
            match read_types(bytes, p1, n as usize) {
                Err(e) => Err(e),
                Ok((ts, next)) => Ok((Some(ColTypeOptionValue::TupleType(ts)), next)),
            }
        },
        _ => Ok((None, pos)),
    }
}

/// Reads a user-defined type at `pos`.
fn read_udt(bytes: &[u8], pos: usize) -> (r: Result<(CUdt, usize), Error>)
    requires
        pos <= bytes@.len(),
    ensures
        match r {
            Ok((u, next)) => udt_at(bytes@, pos as nat) == Ok::<(UdtView, nat), Error>(
                (u@, next as nat),
            ) && pos < next <= bytes@.len(),
            Err(e) => udt_at(bytes@, pos as nat) == Err::<(UdtView, nat), Error>(e),
        },
    decreases bytes@.len() - pos, 0nat,
{
    let (ks, p1) = match read_string(bytes, pos) {
        Ok(x) => x,
        Err(e) => {
            return Err(e);
        },
    };
    let (udt_name, p2) = match read_string(bytes, p1) {
        Ok(x) => x,
        Err(e) => {
            return Err(e);
        },
    };
    let (n, p3) = match read_short(bytes, p2) {
        Ok(x) => x,
        Err(e) => {
            return Err(e);
        },
    };
    match read_fields(bytes, p3, n as usize) {
        Err(e) => Err(e),
        Ok((descriptions, next)) => Ok((CUdt { ks, udt_name, descriptions }, next)),
    }
}

/// Reads `count` descriptions of types from `pos` on.
pub fn read_types(bytes: &[u8], pos: usize, count: usize) -> (r: Result<
    (Vec<ColTypeOption>, usize),
    Error,
>)
    requires
        pos <= bytes@.len(),
    ensures
        match r {
            Ok((ts, next)) => types_at(bytes@, pos as nat, count as nat) == Ok::<
                (Seq<TypeView>, nat),
                Error,
            >((tuple_model(ts@), next as nat)) && pos <= next <= bytes@.len() && ts@.len()
                == count,
            Err(e) => types_at(bytes@, pos as nat, count as nat) == Err::<
                (Seq<TypeView>, nat),
                Error,
            >(e),
        },
    decreases bytes@.len() - pos, 2 + count,
{
    let mut acc: Vec<ColTypeOption> = Vec::new();
    let mut p: usize = pos;
    let mut i: usize = 0;
    proof {
        match types_at(bytes@, pos as nat, count as nat) {
            Ok((rest, q)) => {
                assert(tuple_model(acc@) + rest =~= rest);
            },
            Err(_) => {},
        }
    }
    while i < count
        invariant
            i <= count,
            pos <= p <= bytes@.len(),
            acc@.len() == i,
            types_at(bytes@, pos as nat, count as nat) == match types_at(
                bytes@,
                p as nat,
                (count - i) as nat,
            ) {
                Ok((rest, q)) => Ok::<(Seq<TypeView>, nat), Error>((tuple_model(acc@) + rest, q)),
                Err(e) => Err::<(Seq<TypeView>, nat), Error>(e),
            },
        decreases count - i,
    {
        let ghost before = acc@;
        match read_type(bytes, p) {
            Err(e) => {
                return Err(e);
            },
            Ok((t, next)) => {
                proof {
                    assert(tuple_model(before.push(t)) =~= tuple_model(before) + seq![t@]);
                    match types_at(bytes@, next as nat, (count - i - 1) as nat) {
                        Ok((rest, q)) => {
                            assert(tuple_model(before) + (seq![t@] + rest) =~= tuple_model(
                                before.push(t),
                            ) + rest);
                        },
                        Err(_) => {},
                    }
                }
                acc.push(t);
                p = next;
                i = i + 1;
            },
        }
    }
    proof {
        assert(tuple_model(acc@) + Seq::<TypeView>::empty() =~= tuple_model(acc@));
    }
    Ok((acc, p))
}

/// Reads `count` fields of a user-defined type from `pos` on.
pub fn read_fields(bytes: &[u8], pos: usize, count: usize) -> (r: Result<
    (Vec<(String, ColTypeOption)>, usize),
    Error,
>)
    requires
        pos <= bytes@.len(),
    ensures
        match r {
            Ok((fs, next)) => fields_at(bytes@, pos as nat, count as nat) == Ok::<
                (Seq<(Seq<char>, TypeView)>, nat),
                Error,
            >((fields_model(fs@), next as nat)) && pos <= next <= bytes@.len() && fs@.len()
                == count,
            Err(e) => fields_at(bytes@, pos as nat, count as nat) == Err::<
                (Seq<(Seq<char>, TypeView)>, nat),
                Error,
            >(e),
        },
    decreases bytes@.len() - pos, 2 + count,
{
    let mut acc: Vec<(String, ColTypeOption)> = Vec::new();
    let mut p: usize = pos;
    let mut i: usize = 0;
    proof {
        match fields_at(bytes@, pos as nat, count as nat) {
            Ok((rest, q)) => {
                assert(fields_model(acc@) + rest =~= rest);
            },
            Err(_) => {},
        }
    }
    while i < count
        invariant
            i <= count,
            pos <= p <= bytes@.len(),
            acc@.len() == i,
            fields_at(bytes@, pos as nat, count as nat) == match fields_at(
                bytes@,
                p as nat,
                (count - i) as nat,
            ) {
                Ok((rest, q)) => Ok::<(Seq<(Seq<char>, TypeView)>, nat), Error>(
                    (fields_model(acc@) + rest, q),
                ),
                Err(e) => Err::<(Seq<(Seq<char>, TypeView)>, nat), Error>(e),
            },
        decreases count - i,
    {
        let ghost before = acc@;
        let (name, p1) = match read_string(bytes, p) {
            Ok(x) => x,
            Err(e) => {
                return Err(e);
            },
        };
        match read_type(bytes, p1) {
            Err(e) => {
                return Err(e);
            },
            Ok((t, next)) => {
                proof {
                    assert(fields_model(before.push((name, t))) =~= fields_model(before) + seq![
                        (name@, t@),
                    ]);
                    match fields_at(bytes@, next as nat, (count - i - 1) as nat) {
                        Ok((rest, q)) => {
                            assert(fields_model(before) + (seq![(name@, t@)] + rest)
                                =~= fields_model(before.push((name, t))) + rest);
                        },
                        Err(_) => {},
                    }
                }
                acc.push((name, t));
                p = next;
                i = i + 1;
            },
        }
    }
    proof {
        assert(fields_model(acc@) + Seq::<(Seq<char>, TypeView)>::empty() =~= fields_model(acc@));
    }
    Ok((acc, p))
}

} // verus!
