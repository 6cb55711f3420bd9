//! The native forms of column values, and which column types each of them can hold.

use vstd::prelude::*;
use crate::column::{ColType, ColTypeOption, TypeView};
use crate::error::{Error, NativeKind};
use crate::value::{
    boolean_of, decimal_of, decode_ascii, decode_bigint, decode_blob, decode_boolean,
    decode_date, decode_decimal, decode_double_bits, decode_float_bits, decode_inet, decode_int,
    decode_smallint, decode_tinyint, decode_uuid, decode_varchar, decode_varint,
    decode_wide_varint, fixed_signed, fixed_unsigned, inet_of, lossy_text, uuid_value, varint_of,
    wide_varint_of, Decimal, DecimalView, Inet, Varint,
};
use crate::wire::{text_of, CBytes};

verus! {

/// A native form of column values.
pub trait Native: Sized {
    /// A value of this form as a mathematical value.
    type Model;

    spec fn model(&self) -> Self::Model;

    /// The name of this form.
    spec fn kind() -> NativeKind;

    /// Whether a column of type `t` can be read in this form.
    spec fn accepts(t: ColType) -> bool;

    /// What the bytes `b` of a column of type `t` hold, read in this form.
    spec fn value_of(t: TypeView, b: Seq<u8>) -> Result<Self::Model, Error>;

    fn native_kind() -> (r: NativeKind)
        ensures
            r == Self::kind(),
    ;

    fn can_hold(t: ColType) -> (r: bool)
        ensures
            r == Self::accepts(t),
    ;

    /// Reads the bytes of a column of type `t` in this form. Where a column of that
    /// type cannot be read in this form, nothing is read.
    fn decode(t: &ColTypeOption, b: &[u8]) -> (r: Result<Self, Error>)
        ensures
            match r {
                Ok(v) => Self::accepts(t.id) && Self::value_of(t@, b@) == Ok::<Self::Model, Error>(
                    v.model(),
                ),
                Err(e) => if Self::accepts(t.id) {
                    Self::value_of(t@, b@) == Err::<Self::Model, Error>(e)
                } else {
                    e == (Error::InvalidProjection { expected: Self::kind(), actual: t.id })
                },
            },
    ;
}

/// One raw value of a column of type `t` in the form `T`: nothing for a null, and else
/// what its bytes hold.
pub open spec fn item<T: Native>(t: TypeView, raw: Option<Seq<u8>>) -> Result<
    Option<T::Model>,
    Error,
> {
    match raw {
        None => Ok(None),
        Some(b) => match T::value_of(t, b) {
            Ok(v) => Ok(Some(v)),
            Err(e) => Err(e),
        },
    }
}

/// One raw value of a column of type `t`, asked for in the form `T`. The form must be
/// one that the type has; a null is then nothing, and no error.
pub open spec fn cell<T: Native>(t: TypeView, raw: Option<Seq<u8>>) -> Result<
    Option<T::Model>,
    Error,
> {
    if T::accepts(t.id) {
        item::<T>(t, raw)
    } else {
        Err(Error::InvalidProjection { expected: T::kind(), actual: t.id })
    }
}

/// The value `v` as a mathematical value.
pub open spec fn model_of<T: Native>(v: Option<T>) -> Option<T::Model> {
    match v {
        Some(x) => Some(x.model()),
        None => None,
    }
}

/// Reads one raw value of a column of type `t` in the form `T`.
pub fn read_cell<T: Native>(t: &ColTypeOption, raw: &CBytes) -> (r: Result<Option<T>, Error>)
    ensures
        match r {
            Ok(v) => cell::<T>(t@, raw@) == Ok::<Option<T::Model>, Error>(model_of(v)),
            Err(e) => cell::<T>(t@, raw@) == Err::<Option<T::Model>, Error>(e),
        },
{
    if !T::can_hold(t.id) {
        return Err(Error::InvalidProjection { expected: T::native_kind(), actual: t.id });
    }
    match raw.as_slice() {
        None => Ok(None),
        Some(b) => match T::decode(t, b) {
            Ok(v) => Ok(Some(v)),
            Err(e) => Err(e),
        },
    }
}

impl Native for Vec<u8> {
    type Model = Seq<u8>;

    open spec fn model(&self) -> Seq<u8> {
        self@
    }

    open spec fn kind() -> NativeKind {
        NativeKind::Blob
    }

    open spec fn accepts(t: ColType) -> bool {
        t == ColType::Blob
    }

    open spec fn value_of(t: TypeView, b: Seq<u8>) -> Result<Seq<u8>, Error> {
        Ok(b)
    }

    fn native_kind() -> (r: NativeKind) {
        NativeKind::Blob
    }

    fn can_hold(t: ColType) -> (r: bool) {
        t == ColType::Blob
    }

    fn decode(t: &ColTypeOption, b: &[u8]) -> (r: Result<Vec<u8>, Error>) {
        if !Self::can_hold(t.id) {
            return Err(Error::InvalidProjection { expected: Self::native_kind(), actual: t.id });
        }
        decode_blob(b)
    }
}

impl Native for String {
    type Model = Seq<char>;

    open spec fn model(&self) -> Seq<char> {
        self@
    }

    open spec fn kind() -> NativeKind {
        NativeKind::Text
    }

    open spec fn accepts(t: ColType) -> bool {
        t == ColType::Custom || t == ColType::Ascii || t == ColType::Varchar
    }

    /// A `varchar` must be UTF-8; an `ascii` or custom value is read as far as it can be.
    open spec fn value_of(t: TypeView, b: Seq<u8>) -> Result<Seq<char>, Error> {
        if t.id == ColType::Varchar {
            text_of(b)
        } else {
            Ok(lossy_text(b))
        }
    }

    fn native_kind() -> (r: NativeKind) {
        NativeKind::Text
    }

    fn can_hold(t: ColType) -> (r: bool) {
        t == ColType::Custom || t == ColType::Ascii || t == ColType::Varchar
    }

    fn decode(t: &ColTypeOption, b: &[u8]) -> (r: Result<String, Error>) {
        if !Self::can_hold(t.id) {
            return Err(Error::InvalidProjection { expected: Self::native_kind(), actual: t.id });
        }
        if t.id == ColType::Varchar {
            decode_varchar(b)
        } else {
            decode_ascii(b)
        }
    }
}

impl Native for bool {
    type Model = bool;

    open spec fn model(&self) -> bool {
        *self
    }

    open spec fn kind() -> NativeKind {
        NativeKind::Boolean
    }

    open spec fn accepts(t: ColType) -> bool {
        t == ColType::Boolean
    }

    open spec fn value_of(t: TypeView, b: Seq<u8>) -> Result<bool, Error> {
        boolean_of(b)
    }

    fn native_kind() -> (r: NativeKind) {
        NativeKind::Boolean
    }

    fn can_hold(t: ColType) -> (r: bool) {
        t == ColType::Boolean
    }

    fn decode(t: &ColTypeOption, b: &[u8]) -> (r: Result<bool, Error>) {
        if !Self::can_hold(t.id) {
            return Err(Error::InvalidProjection { expected: Self::native_kind(), actual: t.id });
        }
        decode_boolean(b)
    }
}

/// The number in `r` as a number of type `i64`.
pub open spec fn as_i64(r: Result<int, Error>) -> Result<i64, Error> {
    match r {
        Ok(v) => Ok(v as i64),
        Err(e) => Err(e),
    }
}

impl Native for i64 {
    type Model = i64;

    open spec fn model(&self) -> i64 {
        *self
    }

    open spec fn kind() -> NativeKind {
        NativeKind::Bigint
    }

    open spec fn accepts(t: ColType) -> bool {
        t == ColType::Bigint || t == ColType::Timestamp || t == ColType::Time || t
            == ColType::Varint || t == ColType::Counter
    }

    /// A `varint` has one to eight bytes; the other types have eight.
    open spec fn value_of(t: TypeView, b: Seq<u8>) -> Result<i64, Error> {
        if t.id == ColType::Varint {
            as_i64(varint_of(b))
        } else {
            as_i64(fixed_signed(b, 8))
        }
    }

    fn native_kind() -> (r: NativeKind) {
        NativeKind::Bigint
    }

    fn can_hold(t: ColType) -> (r: bool) {
        t == ColType::Bigint || t == ColType::Timestamp || t == ColType::Time || t
            == ColType::Varint || t == ColType::Counter
    }

    fn decode(t: &ColTypeOption, b: &[u8]) -> (r: Result<i64, Error>) {
        if !Self::can_hold(t.id) {
            return Err(Error::InvalidProjection { expected: Self::native_kind(), actual: t.id });
        }
        if t.id == ColType::Varint {
            decode_varint(b)
        } else {
            decode_bigint(b)
        }
    }
}

impl Native for i32 {
    type Model = i32;

    open spec fn model(&self) -> i32 {
        *self
    }

    open spec fn kind() -> NativeKind {
        NativeKind::Int
    }

    open spec fn accepts(t: ColType) -> bool {
        t == ColType::Int
    }

    open spec fn value_of(t: TypeView, b: Seq<u8>) -> Result<i32, Error> {
        match fixed_signed(b, 4) {
            Ok(v) => Ok(v as i32),
            Err(e) => Err(e),
        }
    }

    fn native_kind() -> (r: NativeKind) {
        NativeKind::Int
    }

    fn can_hold(t: ColType) -> (r: bool) {
        t == ColType::Int
    }

    fn decode(t: &ColTypeOption, b: &[u8]) -> (r: Result<i32, Error>) {
        if !Self::can_hold(t.id) {
            return Err(Error::InvalidProjection { expected: Self::native_kind(), actual: t.id });
        }
        decode_int(b)
    }
}

impl Native for u32 {
    type Model = u32;

    open spec fn model(&self) -> u32 {
        *self
    }

    open spec fn kind() -> NativeKind {
        NativeKind::Date
    }

    open spec fn accepts(t: ColType) -> bool {
        t == ColType::Date
    }

    open spec fn value_of(t: TypeView, b: Seq<u8>) -> Result<u32, Error> {
        match fixed_unsigned(b, 4) {
            Ok(v) => Ok(v as u32),
            Err(e) => Err(e),
        }
    }

    fn native_kind() -> (r: NativeKind) {
        NativeKind::Date
    }

    fn can_hold(t: ColType) -> (r: bool) {
        t == ColType::Date
    }

    fn decode(t: &ColTypeOption, b: &[u8]) -> (r: Result<u32, Error>) {
        if !Self::can_hold(t.id) {
            return Err(Error::InvalidProjection { expected: Self::native_kind(), actual: t.id });
        }
        decode_date(b)
    }
}

impl Native for i16 {
    type Model = i16;

    open spec fn model(&self) -> i16 {
        *self
    }

    open spec fn kind() -> NativeKind {
        NativeKind::Smallint
    }

    open spec fn accepts(t: ColType) -> bool {
        t == ColType::Smallint
    }

    open spec fn value_of(t: TypeView, b: Seq<u8>) -> Result<i16, Error> {
        match fixed_signed(b, 2) {
            Ok(v) => Ok(v as i16),
            Err(e) => Err(e),
        }
    }

    fn native_kind() -> (r: NativeKind) {
        NativeKind::Smallint
    }

    fn can_hold(t: ColType) -> (r: bool) {
        t == ColType::Smallint
    }

    fn decode(t: &ColTypeOption, b: &[u8]) -> (r: Result<i16, Error>) {
        if !Self::can_hold(t.id) {
            return Err(Error::InvalidProjection { expected: Self::native_kind(), actual: t.id });
        }
        decode_smallint(b)
    }
}

impl Native for i8 {
    type Model = i8;

    open spec fn model(&self) -> i8 {
        *self
    }

    open spec fn kind() -> NativeKind {
        NativeKind::Tinyint
    }

    open spec fn accepts(t: ColType) -> bool {
        t == ColType::Tinyint
    }

    open spec fn value_of(t: TypeView, b: Seq<u8>) -> Result<i8, Error> {
        match fixed_signed(b, 1) {
            Ok(v) => Ok(v as i8),
            Err(e) => Err(e),
        }
    }

    fn native_kind() -> (r: NativeKind) {
        NativeKind::Tinyint
    }

    fn can_hold(t: ColType) -> (r: bool) {
        t == ColType::Tinyint
    }

    fn decode(t: &ColTypeOption, b: &[u8]) -> (r: Result<i8, Error>) {
        if !Self::can_hold(t.id) {
            return Err(Error::InvalidProjection { expected: Self::native_kind(), actual: t.id });
        }
        decode_tinyint(b)
    }
}

/// The bits of a `float` value, as IEEE 754 lays out a single.
#[derive(Debug, Clone, Copy, PartialEq, Eq, Structural)]
pub struct FloatBits(pub u32);

/// The bits of a `double` value, as IEEE 754 lays out a double.
#[derive(Debug, Clone, Copy, PartialEq, Eq, Structural)]
pub struct DoubleBits(pub u64);

impl Native for FloatBits {
    type Model = FloatBits;

    open spec fn model(&self) -> FloatBits {
        *self
    }

    open spec fn kind() -> NativeKind {
        NativeKind::Float
    }

    open spec fn accepts(t: ColType) -> bool {
        t == ColType::Float
    }

    open spec fn value_of(t: TypeView, b: Seq<u8>) -> Result<FloatBits, Error> {
        match fixed_unsigned(b, 4) {
            Ok(v) => Ok(FloatBits(v as u32)),
            Err(e) => Err(e),
        }
    }

    fn native_kind() -> (r: NativeKind) {
        NativeKind::Float
    }

    fn can_hold(t: ColType) -> (r: bool) {
        t == ColType::Float
    }

    fn decode(t: &ColTypeOption, b: &[u8]) -> (r: Result<FloatBits, Error>) {
        if !Self::can_hold(t.id) {
            return Err(Error::InvalidProjection { expected: Self::native_kind(), actual: t.id });
        }
        match decode_float_bits(b) {
            Ok(v) => Ok(FloatBits(v)),
            Err(e) => Err(e),
        }
    }
}

impl Native for DoubleBits {
    type Model = DoubleBits;

    open spec fn model(&self) -> DoubleBits {
        *self
    }

    open spec fn kind() -> NativeKind {
        NativeKind::Double
    }

    open spec fn accepts(t: ColType) -> bool {
        t == ColType::Double
    }

    open spec fn value_of(t: TypeView, b: Seq<u8>) -> Result<DoubleBits, Error> {
        match fixed_unsigned(b, 8) {
            Ok(v) => Ok(DoubleBits(v as u64)),
            Err(e) => Err(e),
        }
    }

    fn native_kind() -> (r: NativeKind) {
        NativeKind::Double
    }

    fn can_hold(t: ColType) -> (r: bool) {
        t == ColType::Double
    }

    fn decode(t: &ColTypeOption, b: &[u8]) -> (r: Result<DoubleBits, Error>) {
        if !Self::can_hold(t.id) {
            return Err(Error::InvalidProjection { expected: Self::native_kind(), actual: t.id });
        }
        match decode_double_bits(b) {
            Ok(v) => Ok(DoubleBits(v)),
            Err(e) => Err(e),
        }
    }
}

impl Native for Varint {
    type Model = int;

    open spec fn model(&self) -> int {
        self@
    }

    open spec fn kind() -> NativeKind {
        NativeKind::Varint
    }

    open spec fn accepts(t: ColType) -> bool {
        t == ColType::Varint
    }

    open spec fn value_of(t: TypeView, b: Seq<u8>) -> Result<int, Error> {
        wide_varint_of(b)
    }

    fn native_kind() -> (r: NativeKind) {
        NativeKind::Varint
    }

    fn can_hold(t: ColType) -> (r: bool) {
        t == ColType::Varint
    }

    fn decode(t: &ColTypeOption, b: &[u8]) -> (r: Result<Varint, Error>) {
        if !Self::can_hold(t.id) {
            return Err(Error::InvalidProjection { expected: Self::native_kind(), actual: t.id });
        }
        match decode_wide_varint(b) {
            Ok(v) => Ok(v),
            Err(e) => Err(e),
        }
    }
}

impl Native for Decimal {
    type Model = DecimalView;

    open spec fn model(&self) -> DecimalView {
        self@
    }

    open spec fn kind() -> NativeKind {
        NativeKind::Decimal
    }

    open spec fn accepts(t: ColType) -> bool {
        t == ColType::Decimal
    }

    open spec fn value_of(t: TypeView, b: Seq<u8>) -> Result<DecimalView, Error> {
        decimal_of(b)
    }

    fn native_kind() -> (r: NativeKind) {
        NativeKind::Decimal
    }

    fn can_hold(t: ColType) -> (r: bool) {
        t == ColType::Decimal
    }

    fn decode(t: &ColTypeOption, b: &[u8]) -> (r: Result<Decimal, Error>) {
        if !Self::can_hold(t.id) {
            return Err(Error::InvalidProjection { expected: Self::native_kind(), actual: t.id });
        }
        decode_decimal(b)
    }
}

impl Native for Inet {
    type Model = Inet;

    open spec fn model(&self) -> Inet {
        *self
    }

    open spec fn kind() -> NativeKind {
        NativeKind::Inet
    }

    open spec fn accepts(t: ColType) -> bool {
        t == ColType::Inet
    }

    open spec fn value_of(t: TypeView, b: Seq<u8>) -> Result<Inet, Error> {
        inet_of(b)
    }

    fn native_kind() -> (r: NativeKind) {
        NativeKind::Inet
    }

    fn can_hold(t: ColType) -> (r: bool) {
        t == ColType::Inet
    }

    fn decode(t: &ColTypeOption, b: &[u8]) -> (r: Result<Inet, Error>) {
        if !Self::can_hold(t.id) {
            return Err(Error::InvalidProjection { expected: Self::native_kind(), actual: t.id });
        }
        decode_inet(b)
    }
}

impl Native for uuid::Uuid {
    type Model = uuid::Uuid;

    open spec fn model(&self) -> uuid::Uuid {
        *self
    }

    open spec fn kind() -> NativeKind {
        NativeKind::Uuid
    }

    open spec fn accepts(t: ColType) -> bool {
        t == ColType::Uuid || t == ColType::Timeuuid
    }

    open spec fn value_of(t: TypeView, b: Seq<u8>) -> Result<uuid::Uuid, Error> {
        uuid_value(b)
    }

    fn native_kind() -> (r: NativeKind) {
        NativeKind::Uuid
    }

    fn can_hold(t: ColType) -> (r: bool) {
        t == ColType::Uuid || t == ColType::Timeuuid
    }

    fn decode(t: &ColTypeOption, b: &[u8]) -> (r: Result<uuid::Uuid, Error>) {
        if !Self::can_hold(t.id) {
            return Err(Error::InvalidProjection { expected: Self::native_kind(), actual: t.id });
        }
        decode_uuid(b)
    }
}

} // verus!
