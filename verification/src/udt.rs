//! Values of user-defined types: the raw values of the fields together with the
//! declared fields, read in a native form on demand.

use vstd::prelude::*;
use crate::column::{CUdt, ColType, ColTypeOption, ColTypeOptionValue, TypeView, UdtView, ValueView};
use crate::error::{Context, Error, NativeKind};
use crate::native::{cell, model_of, read_cell, Native};
use crate::value::{decode_udt, field_values_at};
use crate::wire::{views, CBytes};

verus! {

/// A value of a user-defined type as it came from the server.
#[derive(Debug)]
pub struct UDT {
    metadata: CUdt,
    data: Vec<CBytes>,
}

/// A value of a user-defined type as a mathematical value: the raw value of a field
/// stands at the index of the field's declaration.
pub struct UdtValueView {
    pub metadata: UdtView,
    pub data: Seq<Option<Seq<u8>>>,
}

impl View for UDT {
    type V = UdtValueView;

    closed spec fn view(&self) -> UdtValueView {
        UdtValueView { metadata: self.metadata@, data: views(self.data@) }
    }
}

/// The index of the first field named `name`, if there is one.
pub open spec fn field_index(fields: Seq<(Seq<char>, TypeView)>, name: Seq<char>) -> Option<int>
    decreases fields.len(),
{
    if fields.len() == 0 {
        None
    } else if fields[0].0 == name {
        Some(0)
    } else {
        match field_index(fields.drop_first(), name) {
            Some(i) => Some(i + 1),
            None => None,
        }
    }
}

/// The value of the field at `index`, in the form `T`.
pub open spec fn field_at<T: Native>(v: UdtValueView, index: int) -> Result<
    Option<T::Model>,
    Error,
> {
    if 0 <= index < v.metadata.descriptions.len() && index < v.data.len() {
        cell::<T>(v.metadata.descriptions[index].1, v.data[index])
    } else {
        Err(Error::OutOfRange)
    }
}

impl UDT {
    /// A value with the declared fields `metadata` and the raw values `data`.
    pub fn new(data: Vec<CBytes>, metadata: CUdt) -> (r: UDT)
        ensures
            r@ == (UdtValueView { metadata: metadata@, data: views(data@) }),
    {
        UDT { metadata, data }
    }

    /// The declared fields.
    pub fn metadata(&self) -> (r: &CUdt)
        ensures
            r@ == self@.metadata,
    {
        &self.metadata
    }

    /// The value of the field at `index`, in the form `T`. A null gives `None`.
    pub fn get<T: Native>(&self, index: usize) -> (r: Result<Option<T>, Error>)
        ensures
            match r {
                Ok(v) => field_at::<T>(self@, index as int) == Ok::<Option<T::Model>, Error>(
                    model_of(v),
                ),
                Err(e) => field_at::<T>(self@, index as int) == Err::<Option<T::Model>, Error>(e),
            },
    {
        if index >= self.metadata.descriptions.len() || index >= self.data.len() {
            return Err(Error::OutOfRange);
        }
        proof {
            assert(self@.metadata.descriptions[index as int].1
                == self.metadata.descriptions@[index as int].1@);
            assert(self@.data[index as int] == self.data@[index as int]@);
        }
        read_cell::<T>(&self.metadata.descriptions[index].1, &self.data[index])
    }

    /// The index of the first field named `name`.
    pub fn index_of(&self, name: &str) -> (r: Option<usize>)
        ensures
            match r {
                Some(i) => field_index(self@.metadata.descriptions, name@) == Some(i as int),
                None => field_index(self@.metadata.descriptions, name@).is_none(),
            },
    {
        let wanted = name.to_owned();
        let mut i: usize = 0;
        let ghost all = self@.metadata.descriptions;
        proof {
            assert(all.subrange(0, all.len() as int) =~= all);
        }
        while i < self.metadata.descriptions.len()
            invariant
                i <= self.metadata.descriptions@.len(),
                wanted@ == name@,
                all == self@.metadata.descriptions,
                all.len() == self.metadata.descriptions@.len(),
                field_index(all, name@) == match field_index(
                    all.subrange(i as int, all.len() as int),
                    name@,
                ) {
                    Some(k) => Some(k + i),
                    None => None,
                },
            decreases self.metadata.descriptions@.len() - i,
        {
            let ghost here = all.subrange(i as int, all.len() as int);
            proof {
                assert(here[0].0 == self.metadata.descriptions@[i as int].0@);
                assert(here.drop_first() =~= all.subrange(i + 1, all.len() as int));
            }
            if self.metadata.descriptions[i].0 == wanted {
                return Some(i);
            }
            i = i + 1;
        }
        None
    }

    /// The value of the first field named `name`, in the form `T`.
    pub fn get_by_name<T: Native>(&self, name: &str) -> (r: Result<Option<T>, Error>)
        ensures
            match field_index(self@.metadata.descriptions, name@) {
                None => r == Err::<Option<T>, Error>(Error::OutOfRange),
                Some(i) => match r {
                    Ok(v) => field_at::<T>(self@, i) == Ok::<Option<T::Model>, Error>(model_of(v)),
                    Err(e) => field_at::<T>(self@, i) == Err::<Option<T::Model>, Error>(e),
                },
            },
    {
        match self.index_of(name) {
            None => Err(Error::OutOfRange),
            Some(i) => self.get::<T>(i),
        }
    }
}

impl Native for UDT {
    type Model = UdtValueView;

    open spec fn model(&self) -> UdtValueView {
        self@
    }

    open spec fn kind() -> NativeKind {
        NativeKind::Record
    }

    open spec fn accepts(t: ColType) -> bool {
        t == ColType::Udt
    }

    /// The values of the fields stay raw, and the declared fields go with them. A
    /// type without declared fields is no user-defined type.
    open spec fn value_of(t: TypeView, b: Seq<u8>) -> Result<UdtValueView, Error> {
        match t.value {
            Some(ValueView::UdtType(u)) => match field_values_at(b, 0, u.descriptions.len()) {
                Ok(data) => Ok(UdtValueView { metadata: u, data }),
                Err(e) => Err(e),
            },
            _ => Err(Error::Decode(Context::Metadata)),
        }
    }

    fn native_kind() -> (r: NativeKind) {
        NativeKind::Record
    }

    fn can_hold(t: ColType) -> (r: bool) {
        t == ColType::Udt
    }

    fn decode(t: &ColTypeOption, b: &[u8]) -> (r: Result<UDT, Error>) {
        if !Self::can_hold(t.id) {
            return Err(Error::InvalidProjection { expected: Self::native_kind(), actual: t.id });
        }
        match &t.value {
            Some(ColTypeOptionValue::UdtType(u)) => {
                proof {
                    assert(t@.value == Some(ValueView::UdtType(u@)));
                    assert(u@.descriptions.len() == u.descriptions@.len());
                }
                match decode_udt(b, u.descriptions.len()) {
                    Ok(data) => Ok(UDT::new(data, u.duplicate())),
                    Err(e) => Err(e),
                }
            },
            _ => {
                proof {
                    assert(!(t@.value is Some && t@.value.unwrap() is UdtType));
                }
                Err(Error::Decode(Context::Metadata))
            },
        }
    }
}

} // verus!
