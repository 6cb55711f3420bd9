//! Column types: the codes of the protocol, and the description of a column's type,
//! which nests for collections, tuples and user-defined types.

use vstd::prelude::*;
use crate::error::Context;
use crate::error::Error;

verus! {

/// The code of a column type.
#[derive(Debug, Clone, Copy, PartialEq, Eq, Structural)]
pub enum ColType {
    Custom,
    Ascii,
    Bigint,
    Blob,
    Boolean,
    Counter,
    Decimal,
    Double,
    Float,
    Int,
    Timestamp,
    Uuid,
    Varchar,
    Varint,
    Timeuuid,
    Inet,
    Date,
    Time,
    Smallint,
    Tinyint,
    List,
    CMap,
    CSet,
    Udt,
    Tuple,
}

impl ColType {
    /// The 16-bit code of this type.
    pub open spec fn code(self) -> u16 {
        match self {
            ColType::Custom => 0x0000,
            ColType::Ascii => 0x0001,
            ColType::Bigint => 0x0002,
            ColType::Blob => 0x0003,
            ColType::Boolean => 0x0004,
            ColType::Counter => 0x0005,
            ColType::Decimal => 0x0006,
            ColType::Double => 0x0007,
            ColType::Float => 0x0008,
            ColType::Int => 0x0009,
            ColType::Timestamp => 0x000B,
            ColType::Uuid => 0x000C,
            ColType::Varchar => 0x000D,
            ColType::Varint => 0x000E,
            ColType::Timeuuid => 0x000F,
            ColType::Inet => 0x0010,
            ColType::Date => 0x0011,
            ColType::Time => 0x0012,
            ColType::Smallint => 0x0013,
            ColType::Tinyint => 0x0014,
            ColType::List => 0x0020,
            ColType::CMap => 0x0021,
            ColType::CSet => 0x0022,
            ColType::Udt => 0x0030,
            ColType::Tuple => 0x0031,
        }
    }

    /// The type with the code `c`, if there is one.
    pub open spec fn of_code(c: u16) -> Option<ColType> {
        if c == 0x0000 {
            Some(ColType::Custom)
        } else if c == 0x0001 {
            Some(ColType::Ascii)
        } else if c == 0x0002 {
            Some(ColType::Bigint)
        } else if c == 0x0003 {
            Some(ColType::Blob)
        } else if c == 0x0004 {
            Some(ColType::Boolean)
        } else if c == 0x0005 {
            Some(ColType::Counter)
        } else if c == 0x0006 {
            Some(ColType::Decimal)
        } else if c == 0x0007 {
            Some(ColType::Double)
        } else if c == 0x0008 {
            Some(ColType::Float)
        } else if c == 0x0009 {
            Some(ColType::Int)
        } else if c == 0x000B {
            Some(ColType::Timestamp)
        } else if c == 0x000C {
            Some(ColType::Uuid)
        } else if c == 0x000D {
            Some(ColType::Varchar)
        } else if c == 0x000E {
            Some(ColType::Varint)
        } else if c == 0x000F {
            Some(ColType::Timeuuid)
        } else if c == 0x0010 {
            Some(ColType::Inet)
        } else if c == 0x0011 {
            Some(ColType::Date)
        } else if c == 0x0012 {
            Some(ColType::Time)
        } else if c == 0x0013 {
            Some(ColType::Smallint)
        } else if c == 0x0014 {
            Some(ColType::Tinyint)
        } else if c == 0x0020 {
            Some(ColType::List)
        } else if c == 0x0021 {
            Some(ColType::CMap)
        } else if c == 0x0022 {
            Some(ColType::CSet)
        } else if c == 0x0030 {
            Some(ColType::Udt)
        } else if c == 0x0031 {
            Some(ColType::Tuple)
        } else {
            None
        }
    }

    pub fn as_short(&self) -> (r: u16)
        ensures
            r == self.code(),
    {
        match self {
            ColType::Custom => 0x0000,
            ColType::Ascii => 0x0001,
            ColType::Bigint => 0x0002,
            ColType::Blob => 0x0003,
            ColType::Boolean => 0x0004,
            ColType::Counter => 0x0005,
            ColType::Decimal => 0x0006,
            ColType::Double => 0x0007,
            ColType::Float => 0x0008,
            ColType::Int => 0x0009,
            ColType::Timestamp => 0x000B,
            ColType::Uuid => 0x000C,
            ColType::Varchar => 0x000D,
            ColType::Varint => 0x000E,
            ColType::Timeuuid => 0x000F,
            ColType::Inet => 0x0010,
            ColType::Date => 0x0011,
            ColType::Time => 0x0012,
            ColType::Smallint => 0x0013,
            ColType::Tinyint => 0x0014,
            ColType::List => 0x0020,
            ColType::CMap => 0x0021,
            ColType::CSet => 0x0022,
            ColType::Udt => 0x0030,
            ColType::Tuple => 0x0031,
        }
    }

    /// The type with the code `c`; a code that the protocol does not define is an error.
    pub fn from_short(c: u16) -> (r: Result<ColType, Error>)
        ensures
            r == match Self::of_code(c) {
                Some(t) => Ok::<ColType, Error>(t),
                None => Err::<ColType, Error>(Error::Decode(Context::UnknownCode)),
            },
    {
        match c {
            0x0000 => Ok(ColType::Custom),
            0x0001 => Ok(ColType::Ascii),
            0x0002 => Ok(ColType::Bigint),
            0x0003 => Ok(ColType::Blob),
            0x0004 => Ok(ColType::Boolean),
            0x0005 => Ok(ColType::Counter),
            0x0006 => Ok(ColType::Decimal),
            0x0007 => Ok(ColType::Double),
            0x0008 => Ok(ColType::Float),
            0x0009 => Ok(ColType::Int),
            0x000B => Ok(ColType::Timestamp),
            0x000C => Ok(ColType::Uuid),
            0x000D => Ok(ColType::Varchar),
            0x000E => Ok(ColType::Varint),
            0x000F => Ok(ColType::Timeuuid),
            0x0010 => Ok(ColType::Inet),
            0x0011 => Ok(ColType::Date),
            0x0012 => Ok(ColType::Time),
            0x0013 => Ok(ColType::Smallint),
            0x0014 => Ok(ColType::Tinyint),
            0x0020 => Ok(ColType::List),
            0x0021 => Ok(ColType::CMap),
            0x0022 => Ok(ColType::CSet),
            0x0030 => Ok(ColType::Udt),
            0x0031 => Ok(ColType::Tuple),
            _ => Err(Error::Decode(Context::UnknownCode)),
        }
    }
}

/// Every column type is the one that its code stands for.
pub proof fn lemma_col_type_round_trip(t: ColType)
    ensures
        ColType::of_code(t.code()) == Some(t),
{
}

/// The description of a column's type: its code and, for the types that need one,
/// what the code alone does not say.
#[derive(Debug, PartialEq, Eq)]
pub struct ColTypeOption {
    pub id: ColType,
    pub value: Option<ColTypeOptionValue>,
}

/// What a type's code alone does not say.
#[derive(Debug, PartialEq, Eq)]
pub enum ColTypeOptionValue {
    /// The class name of a custom type.
    CString(String),
    /// The type of a list's items.
    CList(Box<ColTypeOption>),
    /// The type of a set's items.
    CSet(Box<ColTypeOption>),
    /// The types of a map's keys and of its values.
    CMap(Box<ColTypeOption>, Box<ColTypeOption>),
    /// The fields of a user-defined type.
    UdtType(CUdt),
    /// The types of a tuple's members.
    TupleType(Vec<ColTypeOption>),
}

/// A user-defined type: where it lives, its name, and its fields in the order in
/// which they were declared.
#[derive(Debug, PartialEq, Eq)]
pub struct CUdt {
    pub ks: String,
    pub udt_name: String,
    pub descriptions: Vec<(String, ColTypeOption)>,
}

/// A type description as a mathematical value.
pub struct TypeView {
    pub id: ColType,
    pub value: Option<ValueView>,
}

pub enum ValueView {
    CString(Seq<char>),
    CList(Box<TypeView>),
    CSet(Box<TypeView>),
    CMap(Box<TypeView>, Box<TypeView>),
    UdtType(UdtView),
    TupleType(Seq<TypeView>),
}

pub struct UdtView {
    pub ks: Seq<char>,
    pub udt_name: Seq<char>,
    pub descriptions: Seq<(Seq<char>, TypeView)>,
}

impl ColTypeOption {
    /// This description as a mathematical value.
    pub open spec fn model(&self) -> TypeView
        decreases self,
    {
        TypeView {
            id: self.id,
            value: match self.value {
                None => None,
                Some(v) => Some(v.model()),
            },
        }
    }
}

impl ColTypeOptionValue {
    pub open spec fn model(&self) -> ValueView
        decreases self,
    {
        match self {
            ColTypeOptionValue::CString(s) => ValueView::CString(s@),
            ColTypeOptionValue::CList(t) => ValueView::CList(Box::new(t.model())),
            ColTypeOptionValue::CSet(t) => ValueView::CSet(Box::new(t.model())),
            ColTypeOptionValue::CMap(k, v) => ValueView::CMap(
                Box::new(k.model()),
                Box::new(v.model()),
            ),
            ColTypeOptionValue::UdtType(u) => ValueView::UdtType(u.model()),
            ColTypeOptionValue::TupleType(ts) => ValueView::TupleType(tuple_model(ts@)),
        }
    }
}

/// The descriptions in `ts` as mathematical values.
pub open spec fn tuple_model(ts: Seq<ColTypeOption>) -> Seq<TypeView>
    decreases ts,
{
    Seq::new(
        ts.len(),
        |i: int|
            if 0 <= i < ts.len() {
                ts[i].model()
            } else {
                arbitrary()
            },
    )
}

/// The named descriptions in `fs` as mathematical values.
pub open spec fn fields_model(fs: Seq<(String, ColTypeOption)>) -> Seq<(Seq<char>, TypeView)>
    decreases fs,
{
    Seq::new(
        fs.len(),
        |i: int|
            if 0 <= i < fs.len() {
                (fs[i].0@, fs[i].1.model())
            } else {
                arbitrary()
            },
    )
}

impl CUdt {
    pub open spec fn model(&self) -> UdtView
        decreases self,
    {
        UdtView {
            ks: self.ks@,
            udt_name: self.udt_name@,
            descriptions: fields_model(self.descriptions@),
        }
    }
}

impl View for ColTypeOption {
    type V = TypeView;

    open spec fn view(&self) -> TypeView {
        self.model()
    }
}

impl View for CUdt {
    type V = UdtView;

    open spec fn view(&self) -> UdtView {
        self.model()
    }
}

impl TypeView {
    /// Whether what this description holds beside its code is what the code calls for:
    /// the items' type for a list or a set, the two types of a map, the fields of a
    /// user-defined type, the members' types of a tuple, the class name of a custom
    /// type, and nothing for any other; and so for every description inside it.
    pub open spec fn consistent(self) -> bool
        decreases self,
    {
        match self.value {
            None => self.id != ColType::Custom && self.id != ColType::List && self.id
                != ColType::CSet && self.id != ColType::CMap && self.id != ColType::Udt
                && self.id != ColType::Tuple,
            Some(ValueView::CString(_)) => self.id == ColType::Custom,
            Some(ValueView::CList(t)) => self.id == ColType::List && t.consistent(),
            Some(ValueView::CSet(t)) => self.id == ColType::CSet && t.consistent(),
            Some(ValueView::CMap(k, v)) => self.id == ColType::CMap && k.consistent()
                && v.consistent(),
            Some(ValueView::UdtType(u)) => self.id == ColType::Udt && forall|i: int|
                0 <= i < u.descriptions.len() ==> (#[trigger] u.descriptions[i]).1.consistent(),
            Some(ValueView::TupleType(ts)) => self.id == ColType::Tuple && forall|i: int|
                0 <= i < ts.len() ==> (#[trigger] ts[i]).consistent(),
        }
    }
}

impl ColTypeOption {
    /// A description of a type that needs nothing beside its code.
    pub fn plain(id: ColType) -> (r: ColTypeOption)
        ensures
            r@ == (TypeView { id, value: None }),
    {
        ColTypeOption { id, value: None }
    }

    /// A copy of this description.
    pub fn duplicate(&self) -> (r: ColTypeOption)
        ensures
            r@ == self@,
        decreases self,
    {
        let value = match &self.value {
            None => None,
            Some(ColTypeOptionValue::CString(s)) => Some(ColTypeOptionValue::CString(s.clone())),
            Some(ColTypeOptionValue::CList(t)) => Some(
                ColTypeOptionValue::CList(Box::new(t.duplicate())),
            ),
            Some(ColTypeOptionValue::CSet(t)) => Some(
                ColTypeOptionValue::CSet(Box::new(t.duplicate())),
            ),
            Some(ColTypeOptionValue::CMap(k, v)) => Some(
                ColTypeOptionValue::CMap(Box::new(k.duplicate()), Box::new(v.duplicate())),
            ),
            Some(ColTypeOptionValue::UdtType(u)) => Some(
                ColTypeOptionValue::UdtType(u.duplicate()),
            ),
            Some(ColTypeOptionValue::TupleType(ts)) => {
                let out = duplicate_all(ts);
                assert(tuple_model(out@) =~= tuple_model(ts@));
                Some(ColTypeOptionValue::TupleType(out))
            },
        };
        ColTypeOption { id: self.id, value }
    }
}

/// Copies of the descriptions in `ts`, in the same order.
pub fn duplicate_all(ts: &Vec<ColTypeOption>) -> (r: Vec<ColTypeOption>)
    ensures
        r@.len() == ts@.len(),
        forall|j: int| 0 <= j < ts@.len() ==> (#[trigger] r@[j])@ == ts@[j]@,
    decreases ts,
{
    let mut out: Vec<ColTypeOption> = Vec::new();
    let mut i: usize = 0;
    while i < ts.len()
        invariant
            i <= ts@.len(),
            out@.len() == i,
            forall|j: int| 0 <= j < i ==> (#[trigger] out@[j])@ == ts@[j]@,
        decreases ts@.len() - i,
    {
        out.push(ts[i].duplicate());
        i = i + 1;
    }
    out
}

impl CUdt {
    /// A copy of this user-defined type.
    pub fn duplicate(&self) -> (r: CUdt)
        ensures
            r@ == self@,
        decreases self,
    {
        let mut out: Vec<(String, ColTypeOption)> = Vec::new();
        let mut i: usize = 0;
        while i < self.descriptions.len()
            invariant
                i <= self.descriptions@.len(),
                out@.len() == i,
                forall|j: int|
                    0 <= j < i ==> (#[trigger] out@[j]).0@ == self.descriptions@[j].0@
                        && out@[j].1.model() == self.descriptions@[j].1.model(),
            decreases self.descriptions@.len() - i,
        {
            let name = self.descriptions[i].0.clone();
            let t = self.descriptions[i].1.duplicate();
            out.push((name, t));
            i = i + 1;
        }
        let r = CUdt { ks: self.ks.clone(), udt_name: self.udt_name.clone(), descriptions: out };
        assert(r.model().descriptions =~= self.model().descriptions);
        r
    }
}

} // verus!
