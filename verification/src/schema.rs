//! Schema changes, as a result and as an event report them.

use vstd::prelude::*;
use crate::error::{Context, Error};
use crate::wire::{read_string, read_string_list, string_at, string_list_at, texts};

verus! {

/// A change of the schema: what was done, to what kind of thing, and which one.
#[derive(Debug)]
pub struct SchemaChange {
    /// `CREATED`, `UPDATED` or `DROPPED`.
    pub change_type: String,
    /// `KEYSPACE`, `TABLE`, `TYPE`, `FUNCTION` or `AGGREGATE`.
    pub target: String,
    pub keyspace: String,
    /// The name of the table, type, function or aggregate; none for a keyspace.
    pub name: Option<String>,
    /// The types of the arguments of a function or an aggregate; none for the others.
    pub arguments: Option<Vec<String>>,
}

/// A change of the schema as a mathematical value.
pub struct SchemaChangeView {
    pub change_type: Seq<char>,
    pub target: Seq<char>,
    pub keyspace: Seq<char>,
    pub name: Option<Seq<char>>,
    pub arguments: Option<Seq<Seq<char>>>,
}

impl View for SchemaChange {
    type V = SchemaChangeView;

    open spec fn view(&self) -> SchemaChangeView {
        SchemaChangeView {
            change_type: self.change_type@,
            target: self.target@,
            keyspace: self.keyspace@,
            name: match self.name {
                Some(n) => Some(n@),
                None => None,
            },
            arguments: match self.arguments {
                Some(a) => Some(texts(a@)),
                None => None,
            },
        }
    }
}

/// How many names follow the keyspace for a target: none for a keyspace, one for a
/// table or a type, and one with a list of argument types for a function or an
/// aggregate.
pub open spec fn target_shape(target: Seq<char>) -> Option<nat> {
    if target == "KEYSPACE"@ {
        Some(0)
    } else if target == "TABLE"@ || target == "TYPE"@ {
        Some(1)
    } else if target == "FUNCTION"@ || target == "AGGREGATE"@ {
        Some(2)
    } else {
        None
    }
}

/// Tells how many names follow the keyspace for a target.
pub fn shape_of(target: &String) -> (r: Option<u8>)
    ensures
        match r {
            Some(n) => target_shape(target@) == Some(n as nat),
            None => target_shape(target@).is_none(),
        },
{
    if *target == "KEYSPACE".to_owned() {
        Some(0)
    } else if *target == "TABLE".to_owned() || *target == "TYPE".to_owned() {
        Some(1)
    } else if *target == "FUNCTION".to_owned() || *target == "AGGREGATE".to_owned() {
        Some(2)
    } else {
        None
    }
}

/// The change of the schema at `pos`: the change and the target, each as a `[string]`,
/// then the keyspace and what else the target calls for.
pub open spec fn schema_change_at(s: Seq<u8>, pos: nat) -> Result<(SchemaChangeView, nat), Error> {
    match string_at(s, pos) {
        Err(e) => Err(e),
        Ok((change_type, p1)) => match string_at(s, p1) {
            Err(e) => Err(e),
            Ok((target, p2)) => match target_shape(target) {
                None => Err(Error::Decode(Context::UnknownCode)),
                Some(shape) => match string_at(s, p2) {
                    Err(e) => Err(e),
                    Ok((keyspace, p3)) => if shape == 0 {
                        Ok(
                            (
                                SchemaChangeView {
                                    change_type,
                                    target,
                                    keyspace,
                                    name: None,
                                    arguments: None,
                                },
                                p3,
                            ),
                        )
                    } else {
                        match string_at(s, p3) {
                            Err(e) => Err(e),
                            Ok((name, p4)) => if shape == 1 {
                                Ok(
                                    (
                                        SchemaChangeView {
                                            change_type,
                                            target,
                                            keyspace,
                                            name: Some(name),
                                            arguments: None,
                                        },
                                        p4,
                                    ),
                                )
                            } else {
                                match string_list_at(s, p4) {
                                    Err(e) => Err(e),
                                    Ok((arguments, next)) => Ok(
                                        (
                                            SchemaChangeView {
                                                change_type,
                                                target,
                                                keyspace,
                                                name: Some(name),
                                                arguments: Some(arguments),
                                            },
                                            next,
                                        ),
                                    ),
                                }
                            },
                        }
                    },
                },
            },
        },
    }
}

/// Reads a change of the schema at `pos`.
pub fn read_schema_change(bytes: &[u8], pos: usize) -> (r: Result<(SchemaChange, usize), Error>)
    requires
        pos <= bytes@.len(),
    ensures
        match r {
            Ok((c, next)) => schema_change_at(bytes@, pos as nat) == Ok::<
                (SchemaChangeView, nat),
                Error,
            >((c@, next as nat)) && pos < next <= bytes@.len(),
            Err(e) => schema_change_at(bytes@, pos as nat) == Err::<(SchemaChangeView, nat), Error>(
                e,
            ),
        },
{
    let (change_type, p1) = match read_string(bytes, pos) {
        Ok(x) => x,
        Err(e) => {
            return Err(e);
        },
    };
    let (target, p2) = match read_string(bytes, p1) {
        Ok(x) => x,
        Err(e) => {
            return Err(e);
        },
    };
    let shape = match shape_of(&target) {
        Some(n) => n,
        None => {
            return Err(Error::Decode(Context::UnknownCode));
        },
    };
    let (keyspace, p3) = match read_string(bytes, p2) {
        Ok(x) => x,
        Err(e) => {
            return Err(e);
        },
    };
    if shape == 0 {
        return Ok((SchemaChange { change_type, target, keyspace, name: None, arguments: None }, p3));
    }
    let (name, p4) = match read_string(bytes, p3) {
        Ok(x) => x,
        Err(e) => {
            return Err(e);
        },
    };
    if shape == 1 {
        return Ok(
            (SchemaChange { change_type, target, keyspace, name: Some(name), arguments: None }, p4),
        );
    }
    match read_string_list(bytes, p4) {
        Err(e) => Err(e),
        Ok((arguments, next)) => Ok(
            (
                SchemaChange {
                    change_type,
                    target,
                    keyspace,
                    name: Some(name),
                    arguments: Some(arguments),
                },
                next,
            ),
        ),
    }
}

} // verus!
