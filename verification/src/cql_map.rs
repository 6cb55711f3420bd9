//! Maps: the raw keys and values together with the declared type, read in a native
//! form on demand.

use vstd::prelude::*;
use crate::column::{ColType, ColTypeOption, ColTypeOptionValue, TypeView, ValueView};
use crate::error::{Error, NativeKind};
use crate::list::{kept_apart, option_models, project, projected};
use crate::native::Native;
use crate::value::{counted_values, decode_map};
use crate::wire::{views, CBytes};

verus! {

/// A map as it came from the server: its entries in their order.
#[derive(Debug)]
pub struct CqlMap {
    /// The declared type of the map, with the types of its keys and of its values.
    metadata: ColTypeOption,
    keys: Vec<CBytes>,
    values: Vec<CBytes>,
}

/// A map as a mathematical value: the key of an entry and its value stand at the
/// same index.
pub struct MapView {
    pub metadata: TypeView,
    pub keys: Seq<Option<Seq<u8>>>,
    pub values: Seq<Option<Seq<u8>>>,
}

impl View for CqlMap {
    type V = MapView;

    closed spec fn view(&self) -> MapView {
        MapView { metadata: self.metadata@, keys: views(self.keys@), values: views(self.values@) }
    }
}

/// The values at the even indices of `flat`, where `first` is 0, or at the odd ones,
/// where it is 1.
pub open spec fn every_other(flat: Seq<Option<Seq<u8>>>, first: int) -> Seq<Option<Seq<u8>>> {
    Seq::new((flat.len() / 2) as nat, |i: int| flat[2 * i + first])
}

/// The types of the keys and of the values of a map of type `m`.
pub open spec fn entry_types(m: TypeView) -> Option<(TypeView, TypeView)> {
    match m.value {
        Some(ValueView::CMap(k, v)) => Some((*k, *v)),
        _ => None,
    }
}

/// One side of the entries, of declared type `side`, in the form `T`.
pub open spec fn side_projection<T: Native>(
    m: TypeView,
    side: Option<TypeView>,
    data: Seq<Option<Seq<u8>>>,
) -> Result<Seq<Option<T::Model>>, Error> {
    match side {
        None => Err(Error::InvalidProjection { expected: T::kind(), actual: m.id }),
        Some(t) => projected::<T>(t, data),
    }
}

/// Copies of the values of `flat` at every other index, from `first` on.
fn take_every_other(flat: &Vec<CBytes>, first: usize) -> (r: Vec<CBytes>)
    requires
        first <= 1,
    ensures
        views(r@) == every_other(views(flat@), first as int),
{
    let n = flat.len() / 2;
    let mut out: Vec<CBytes> = Vec::new();
    let mut i: usize = 0;
    while i < n
        invariant
            i <= n,
            n == flat@.len() / 2,
            flat@.len() <= usize::MAX,
            first <= 1,
            out@.len() == i,
            forall|j: int| 0 <= j < i ==> (#[trigger] out@[j])@ == flat@[2 * j + first]@,
        decreases n - i,
    {
        out.push(flat[2 * i + first].duplicate());
        i = i + 1;
    }
    assert(views(out@) =~= every_other(views(flat@), first as int));
    out
}

impl CqlMap {
    /// A map of the declared type `metadata` whose raw entries `data` holds: the key
    /// and the value of each entry in turn. A last key without a value is left out.
    pub fn new(data: Vec<CBytes>, metadata: ColTypeOption) -> (r: CqlMap)
        ensures
            r@ == (MapView {
                metadata: metadata@,
                keys: every_other(views(data@), 0),
                values: every_other(views(data@), 1),
            }),
    {
        let keys = take_every_other(&data, 0);
        let values = take_every_other(&data, 1);
        CqlMap { metadata, keys, values }
    }

    /// The number of entries.
    pub fn len(&self) -> (r: usize)
        ensures
            r == self@.keys.len(),
    {
        self.keys.len()
    }

    /// The declared type of the map.
    pub fn metadata(&self) -> (r: &ColTypeOption)
        ensures
            r@ == self@.metadata,
    {
        &self.metadata
    }

    fn types(&self) -> (r: Option<(&ColTypeOption, &ColTypeOption)>)
        ensures
            match r {
                Some((k, v)) => entry_types(self@.metadata) == Some((k@, v@)),
                None => entry_types(self@.metadata).is_none(),
            },
    {
        match &self.metadata.value {
            Some(ColTypeOptionValue::CMap(k, v)) => Some((&**k, &**v)),
            _ => None,
        }
    }

    /// The keys in the native form `T`, in the order of the entries; `None` for a null.
    pub fn keys<T: Native>(&self) -> (r: Result<Vec<Option<T>>, Error>)
        ensures
            match r {
                Ok(v) => side_projection::<T>(
                    self@.metadata,
                    match entry_types(self@.metadata) {
                        Some((k, v)) => Some(k),
                        None => None,
                    },
                    self@.keys,
                ) == Ok::<Seq<Option<T::Model>>, Error>(option_models(v@)) && kept_apart::<T>(
                    entry_types(self@.metadata).unwrap().0,
                    self@.keys,
                    v@,
                ),
                Err(e) => side_projection::<T>(
                    self@.metadata,
                    match entry_types(self@.metadata) {
                        Some((k, v)) => Some(k),
                        None => None,
                    },
                    self@.keys,
                ) == Err::<Seq<Option<T::Model>>, Error>(e),
            },
    {
        match self.types() {
            None => Err(
                Error::InvalidProjection { expected: T::native_kind(), actual: self.metadata.id },
            ),
            Some((k, _)) => project::<T>(k, &self.keys),
        }
    }

    /// The values in the native form `T`, in the order of the entries; `None` for a
    /// null.
    pub fn values<T: Native>(&self) -> (r: Result<Vec<Option<T>>, Error>)
        ensures
            match r {
                Ok(v) => side_projection::<T>(
                    self@.metadata,
                    match entry_types(self@.metadata) {
                        Some((k, v)) => Some(v),
                        None => None,
                    },
                    self@.values,
                ) == Ok::<Seq<Option<T::Model>>, Error>(option_models(v@)) && kept_apart::<T>(
                    entry_types(self@.metadata).unwrap().1,
                    self@.values,
                    v@,
                ),
                Err(e) => side_projection::<T>(
                    self@.metadata,
                    match entry_types(self@.metadata) {
                        Some((k, v)) => Some(v),
                        None => None,
                    },
                    self@.values,
                ) == Err::<Seq<Option<T::Model>>, Error>(e),
            },
    {
        match self.types() {
            None => Err(
                Error::InvalidProjection { expected: T::native_kind(), actual: self.metadata.id },
            ),
            Some((_, v)) => project::<T>(v, &self.values),
        }
    }
}

impl Native for CqlMap {
    type Model = MapView;

    open spec fn model(&self) -> MapView {
        self@
    }

    open spec fn kind() -> NativeKind {
        NativeKind::Pairs
    }

    open spec fn accepts(t: ColType) -> bool {
        t == ColType::CMap
    }

    /// The keys and the values stay raw, and the declared type goes with them.
    open spec fn value_of(t: TypeView, b: Seq<u8>) -> Result<MapView, Error> {
        match counted_values(b, 2) {
            Ok(flat) => Ok(
                MapView { metadata: t, keys: every_other(flat, 0), values: every_other(flat, 1) },
            ),
            Err(e) => Err(e),
        }
    }

    fn native_kind() -> (r: NativeKind) {
        NativeKind::Pairs
    }

    fn can_hold(t: ColType) -> (r: bool) {
        t == ColType::CMap
    }

    fn decode(t: &ColTypeOption, b: &[u8]) -> (r: Result<CqlMap, Error>) {
        if !Self::can_hold(t.id) {
            return Err(Error::InvalidProjection { expected: Self::native_kind(), actual: t.id });
        }
        match decode_map(b) {
            Ok(flat) => Ok(CqlMap::new(flat, t.duplicate())),
            Err(e) => Err(e),
        }
    }
}

} // verus!
