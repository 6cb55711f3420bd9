//! Tuples: the raw values of the members together with their declared types, read in
//! a native form on demand.

use vstd::prelude::*;
use crate::column::{
    duplicate_all, tuple_model, ColType, ColTypeOption, ColTypeOptionValue, TypeView, ValueView,
};
use crate::error::{Context, Error, NativeKind};
use crate::native::{cell, model_of, read_cell, Native};
use crate::value::{counted_values, decode_tuple};
use crate::wire::{views, CBytes};

verus! {

/// A tuple as it came from the server.
#[derive(Debug)]
pub struct Tuple {
    metadata: Vec<ColTypeOption>,
    data: Vec<CBytes>,
}

/// A tuple as a mathematical value: the raw value of a member stands at the index of
/// the member's type.
pub struct TupleView {
    pub metadata: Seq<TypeView>,
    pub data: Seq<Option<Seq<u8>>>,
}

impl View for Tuple {
    type V = TupleView;

    closed spec fn view(&self) -> TupleView {
        TupleView { metadata: tuple_model(self.metadata@), data: views(self.data@) }
    }
}

/// The member at `index`, in the form `T`.
pub open spec fn member_at<T: Native>(v: TupleView, index: int) -> Result<Option<T::Model>, Error> {
    if 0 <= index < v.metadata.len() && index < v.data.len() {
        cell::<T>(v.metadata[index], v.data[index])
    } else {
        Err(Error::OutOfRange)
    }
}

impl Tuple {
    /// A tuple with the members' types `metadata` and the raw values `data`.
    pub fn new(data: Vec<CBytes>, metadata: Vec<ColTypeOption>) -> (r: Tuple)
        ensures
            r@ == (TupleView { metadata: tuple_model(metadata@), data: views(data@) }),
    {
        Tuple { metadata, data }
    }

    /// The number of values.
    pub fn len(&self) -> (r: usize)
        ensures
            r == self@.data.len(),
    {
        self.data.len()
    }

    /// The member at `index`, in the form `T`. A null gives `None`.
    pub fn get<T: Native>(&self, index: usize) -> (r: Result<Option<T>, Error>)
        ensures
            match r {
                Ok(v) => member_at::<T>(self@, index as int) == Ok::<Option<T::Model>, Error>(
                    model_of(v),
                ),
                Err(e) => member_at::<T>(self@, index as int) == Err::<Option<T::Model>, Error>(e),
            },
    {
        if index >= self.metadata.len() || index >= self.data.len() {
            return Err(Error::OutOfRange);
        }
        proof {
            assert(self@.metadata[index as int] == self.metadata@[index as int]@);
            assert(self@.data[index as int] == self.data@[index as int]@);
        }
        read_cell::<T>(&self.metadata[index], &self.data[index])
    }
}

impl Native for Tuple {
    type Model = TupleView;

    open spec fn model(&self) -> TupleView {
        self@
    }

    open spec fn kind() -> NativeKind {
        NativeKind::Tuple
    }

    open spec fn accepts(t: ColType) -> bool {
        t == ColType::Tuple
    }

    /// The values of the members stay raw, and their declared types go with them. A
    /// type without declared members is no tuple.
    open spec fn value_of(t: TypeView, b: Seq<u8>) -> Result<TupleView, Error> {
        match t.value {
            Some(ValueView::TupleType(ts)) => match counted_values(b, 1) {
                Ok(data) => Ok(TupleView { metadata: ts, data }),
                Err(e) => Err(e),
            },
            _ => Err(Error::Decode(Context::Metadata)),
        }
    }

    fn native_kind() -> (r: NativeKind) {
        NativeKind::Tuple
    }

    fn can_hold(t: ColType) -> (r: bool) {
        t == ColType::Tuple
    }

    fn decode(t: &ColTypeOption, b: &[u8]) -> (r: Result<Tuple, Error>) {
        if !Self::can_hold(t.id) {
            return Err(Error::InvalidProjection { expected: Self::native_kind(), actual: t.id });
        }
        match &t.value {
            Some(ColTypeOptionValue::TupleType(ts)) => {
                proof {
                    assert(t@.value == Some(ValueView::TupleType(tuple_model(ts@))));
                }
                match decode_tuple(b) {
                    Ok(data) => {
                        let metadata = duplicate_all(ts);
                        assert(tuple_model(metadata@) =~= tuple_model(ts@));
                        Ok(Tuple::new(data, metadata))
                    },
                    Err(e) => Err(e),
                }
            },
            _ => {
                proof {
                    assert(!(t@.value is Some && t@.value.unwrap() is TupleType));
                }
                Err(Error::Decode(Context::Metadata))
            },
        }
    }
}

} // verus!
