//! Lists and sets: the raw values of the items together with the declared type, read
//! in a native form on demand.

use vstd::prelude::*;
use crate::column::{ColType, ColTypeOption, ColTypeOptionValue, TypeView, ValueView};
use crate::error::{Error, NativeKind};
use crate::native::{item, model_of, read_cell, Native};
use crate::value::{counted_values, decode_list};
use crate::wire::{views, CBytes};

verus! {

/// A list or a set as it came from the server.
#[derive(Debug)]
pub struct List {
    /// The declared type of the collection: a list or a set, with the type of its items.
    metadata: ColTypeOption,
    data: Vec<CBytes>,
}

/// A list or a set as a mathematical value.
pub struct ListView {
    pub metadata: TypeView,
    pub data: Seq<Option<Seq<u8>>>,
}

impl View for List {
    type V = ListView;

    closed spec fn view(&self) -> ListView {
        ListView { metadata: self.metadata@, data: views(self.data@) }
    }
}

/// The type of the items of a collection of type `m`, where `m` is a list or a set.
pub open spec fn item_type(m: TypeView) -> Option<TypeView> {
    match m.value {
        Some(ValueView::CList(t)) => Some(*t),
        Some(ValueView::CSet(t)) => Some(*t),
        _ => None,
    }
}

/// The values of `v` as mathematical values: nothing where `v` holds nothing.
pub open spec fn option_models<T: Native>(v: Seq<Option<T>>) -> Seq<Option<T::Model>> {
    v.map_values(|x: Option<T>| model_of(x))
}

/// The raw values `data`, each of type `t`, in the form `T`, in their order: a null
/// gives nothing at its place, and any other value what its bytes hold. Where a value
/// cannot be read, the result is the error of the first such value.
pub open spec fn items<T: Native>(t: TypeView, data: Seq<Option<Seq<u8>>>) -> Result<
    Seq<Option<T::Model>>,
    Error,
>
    decreases data.len(),
{
    if data.len() == 0 {
        Ok(Seq::empty())
    } else {
        match item::<T>(t, data[0]) {
            Err(e) => Err(e),
            Ok(x) => match items::<T>(t, data.drop_first()) {
                Err(e) => Err(e),
                Ok(rest) => Ok(seq![x] + rest),
            },
        }
    }
}

/// The raw values `data`, each of type `t`, asked for in the form `T`. The form must
/// be one that the type has.
pub open spec fn projected<T: Native>(t: TypeView, data: Seq<Option<Seq<u8>>>) -> Result<
    Seq<Option<T::Model>>,
    Error,
> {
    if T::accepts(t.id) {
        items::<T>(t, data)
    } else {
        Err(Error::InvalidProjection { expected: T::kind(), actual: t.id })
    }
}

/// A collection of declared type `m` with the raw values `data`, in the form `T`. What
/// is asked for must agree with what was declared: `m` must be a list or a set, of
/// items whose type `T` can hold.
pub open spec fn projection<T: Native>(m: TypeView, data: Seq<Option<Seq<u8>>>) -> Result<
    Seq<Option<T::Model>>,
    Error,
> {
    match item_type(m) {
        None => Err(Error::InvalidProjection { expected: T::kind(), actual: m.id }),
        Some(t) => projected::<T>(t, data),
    }
}

/// Where all of `data` can be read, the result has one place for each raw value, and
/// holds nothing exactly at the places of the nulls.
pub proof fn lemma_items_keep_nulls<T: Native>(t: TypeView, data: Seq<Option<Seq<u8>>>)
    ensures
        match items::<T>(t, data) {
            Ok(v) => v.len() == data.len() && forall|i: int|
                0 <= i < data.len() ==> ((#[trigger] v[i]).is_none() <==> data[i].is_none())
                    && item::<T>(t, data[i]) == Ok::<Option<T::Model>, Error>(v[i]),
            Err(e) => exists|i: int|
                0 <= i < data.len() && item::<T>(t, #[trigger] data[i]) == Err::<
                    Option<T::Model>,
                    Error,
                >(e),
        },
    decreases data.len(),
{
    if data.len() > 0 {
        let rest = data.drop_first();
        lemma_items_keep_nulls::<T>(t, rest);
        match item::<T>(t, data[0]) {
            Err(e) => {
                assert(item::<T>(t, data[0]) == Err::<Option<T::Model>, Error>(e));
            },
            Ok(x) => match items::<T>(t, rest) {
                Err(e) => {
                    let i = choose|i: int|
                        0 <= i < rest.len() && item::<T>(t, #[trigger] rest[i]) == Err::<
                            Option<T::Model>,
                            Error,
                        >(e);
                    assert(data[i + 1] == rest[i]);
                },
                Ok(tail) => {
                    let v = seq![x] + tail;
                    assert forall|i: int| 0 <= i < data.len() implies ((#[trigger] v[i]).is_none()
                        <==> data[i].is_none()) && item::<T>(t, data[i]) == Ok::<
                        Option<T::Model>,
                        Error,
                    >(v[i]) by {
                        if i > 0 {
                            assert(v[i] == tail[i - 1]);
                            assert(data[i] == rest[i - 1]);
                        }
                    }
                },
            },
        }
    }
}

/// Whether `v` has one place for each of the raw values `data`, holds nothing exactly
/// at the places of the nulls, and at every other place what the raw value there
/// holds, read as a value of type `t` in the form `T`.
pub open spec fn kept_apart<T: Native>(
    t: TypeView,
    data: Seq<Option<Seq<u8>>>,
    v: Seq<Option<T>>,
) -> bool {
    &&& v.len() == data.len()
    &&& forall|i: int|
        0 <= i < v.len() ==> ((#[trigger] v[i]).is_none() <==> data[i].is_none()) && item::<T>(
            t,
            data[i],
        ) == Ok::<Option<T::Model>, Error>(model_of(v[i]))
}

/// Reads each of the raw values `data`, of type `t`, in the form `T`. A null gives
/// `None` at its place.
pub fn project<T: Native>(t: &ColTypeOption, data: &Vec<CBytes>) -> (r: Result<
    Vec<Option<T>>,
    Error,
>)
    ensures
        match r {
            Ok(v) => projected::<T>(t@, views(data@)) == Ok::<Seq<Option<T::Model>>, Error>(
                option_models(v@),
            ) && kept_apart::<T>(t@, views(data@), v@),
            Err(e) => projected::<T>(t@, views(data@)) == Err::<Seq<Option<T::Model>>, Error>(e),
        },
{
    if !T::can_hold(t.id) {
        return Err(Error::InvalidProjection { expected: T::native_kind(), actual: t.id });
    }
    let mut acc: Vec<Option<T>> = Vec::new();
    let mut i: usize = 0;
    let ghost all = views(data@);
    proof {
        assert(all.subrange(0, all.len() as int) =~= all);
        assert(option_models(acc@) =~= Seq::<Option<T::Model>>::empty());
        match items::<T>(t@, all) {
            Ok(rest) => {
                assert(option_models(acc@) + rest =~= rest);
            },
            Err(_) => {},
        }
    }
    while i < data.len()
        invariant
            i <= data@.len(),
            acc@.len() == i,
            all == views(data@),
            T::accepts(t.id),
            items::<T>(t@, all) == match items::<T>(t@, all.subrange(i as int, all.len() as int)) {
                Ok(rest) => Ok::<Seq<Option<T::Model>>, Error>(option_models(acc@) + rest),
                Err(e) => Err::<Seq<Option<T::Model>>, Error>(e),
            },
        decreases data@.len() - i,
    {
        let ghost before = acc@;
        let ghost here = all.subrange(i as int, all.len() as int);
        proof {
            assert(here[0] == data@[i as int]@);
            assert(here.drop_first() =~= all.subrange(i + 1, all.len() as int));
        }
        let x: Option<T> = match read_cell::<T>(t, &data[i]) {
            Err(e) => {
                return Err(e);
            },
            Ok(x) => x,
        };
        proof {
            match items::<T>(t@, all.subrange(i + 1, all.len() as int)) {
                Ok(rest) => {
                    assert(option_models(before.push(x)) =~= option_models(before) + seq![
                        model_of(x),
                    ]);
                    assert(option_models(before) + (seq![model_of(x)] + rest) =~= option_models(
                        before.push(x),
                    ) + rest);
                },
                Err(_) => {},
            }
        }
        acc.push(x);
        i = i + 1;
    }
    proof {
        assert(option_models(acc@) + Seq::<Option<T::Model>>::empty() =~= option_models(acc@));
        lemma_items_keep_nulls::<T>(t@, all);
        assert forall|k: int| 0 <= k < acc@.len() implies ((#[trigger] acc@[k]).is_none()
            <==> all[k].is_none()) && item::<T>(t@, all[k]) == Ok::<Option<T::Model>, Error>(
            model_of(acc@[k]),
        ) by {
            assert(option_models(acc@)[k] == model_of(acc@[k]));
        }
    }
    Ok(acc)
}

impl List {
    /// A collection of the declared type `metadata` with the raw values `data`.
    pub fn new(data: Vec<CBytes>, metadata: ColTypeOption) -> (r: List)
        ensures
            r@ == (ListView { metadata: metadata@, data: views(data@) }),
    {
        List { metadata: metadata, data: data }
    }

    /// The number of items.
    pub fn len(&self) -> (r: usize)
        ensures
            r == self@.data.len(),
    {
        self.data.len()
    }

    /// The declared type of the collection.
    pub fn metadata(&self) -> (r: &ColTypeOption)
        ensures
            r@ == self@.metadata,
    {
        &self.metadata
    }

    /// The declared type of the items, where this is a list or a set.
    fn item_metadata(&self) -> (r: Option<&ColTypeOption>)
        ensures
            match r {
                Some(t) => item_type(self@.metadata) == Some(t@),
                None => item_type(self@.metadata).is_none(),
            },
    {
        match &self.metadata.value {
            Some(ColTypeOptionValue::CList(t)) => Some(&**t),
            Some(ColTypeOptionValue::CSet(t)) => Some(&**t),
            _ => None,
        }
    }

    /// Reads every item, of type `t`, in the form `T`.
    fn map<T: Native>(&self, t: &ColTypeOption) -> (r: Result<Vec<Option<T>>, Error>)
        ensures
            match r {
                Ok(v) => projected::<T>(t@, self@.data) == Ok::<Seq<Option<T::Model>>, Error>(
                    option_models(v@),
                ) && kept_apart::<T>(t@, self@.data, v@),
                Err(e) => projected::<T>(t@, self@.data) == Err::<Seq<Option<T::Model>>, Error>(e),
            },
    {
        project::<T>(t, &self.data)
    }
}

impl List {
    /// The items in the native form `T`, in their order: `None` for a null item, and
    /// the value of any other. That form must be one that the declared type of the
    /// items has; if it is not, nothing is read.
    pub fn as_rust<T: Native>(&self) -> (r: Result<Vec<Option<T>>, Error>)
        ensures
            match r {
                Ok(v) => projection::<T>(self@.metadata, self@.data) == Ok::<
                    Seq<Option<T::Model>>,
                    Error,
                >(option_models(v@)) && item_type(self@.metadata).is_some() && kept_apart::<T>(
                    item_type(self@.metadata).unwrap(),
                    self@.data,
                    v@,
                ),
                Err(e) => projection::<T>(self@.metadata, self@.data) == Err::<
                    Seq<Option<T::Model>>,
                    Error,
                >(e),
            },
    {
        match self.item_metadata() {
            None => Err(
                Error::InvalidProjection { expected: T::native_kind(), actual: self.metadata.id },
            ),
            Some(t) => self.map::<T>(t),
        }
    }
}

impl Native for List {
    type Model = ListView;

    open spec fn model(&self) -> ListView {
        self@
    }

    open spec fn kind() -> NativeKind {
        NativeKind::List
    }

    open spec fn accepts(t: ColType) -> bool {
        t == ColType::List || t == ColType::CSet
    }

    /// The items stay raw, and the declared type goes with them.
    open spec fn value_of(t: TypeView, b: Seq<u8>) -> Result<ListView, Error> {
        match counted_values(b, 1) {
            Ok(data) => Ok(ListView { metadata: t, data }),
            Err(e) => Err(e),
        }
    }

    fn native_kind() -> (r: NativeKind) {
        NativeKind::List
    }

    fn can_hold(t: ColType) -> (r: bool) {
        t == ColType::List || t == ColType::CSet
    }

    fn decode(t: &ColTypeOption, b: &[u8]) -> (r: Result<List, Error>) {
        if !Self::can_hold(t.id) {
            return Err(Error::InvalidProjection { expected: Self::native_kind(), actual: t.id });
        }
        match decode_list(b) {
            Ok(data) => Ok(List::new(data, t.duplicate())),
            Err(e) => Err(e),
        }
    }
}

} // verus!
