//! The body of an EVENT frame: what the server reports without being asked.

use vstd::prelude::*;
use vstd::slice::slice_subrange;
use crate::error::{Context, Error};
use crate::primitive::{read_byte, read_int, signed_at, take, unsigned_at};
use crate::schema::{read_schema_change, schema_change_at, SchemaChange, SchemaChangeView};
use crate::value::{decode_inet, inet_of, Inet};
use crate::wire::{read_string, string_at};

verus! {

/// A node: its address and its port.
#[derive(Debug, Clone, Copy, PartialEq, Eq, Structural)]
pub struct Endpoint {
    pub addr: Inet,
    pub port: i32,
}

/// The `[inet]` at `pos`: one byte that holds the length of the address, four or
/// sixteen; the address; and the port as an `[int]`.
pub open spec fn endpoint_at(s: Seq<u8>, pos: nat) -> Result<(Endpoint, nat), Error> {
    match unsigned_at(s, pos, 1) {
        Err(e) => Err(e),
        Ok((n, p)) => if n != 4 && n != 16 {
            Err(Error::Decode(Context::Length))
        } else {
            match take(s, p, n) {
                Err(e) => Err(e),
                Ok((b, p1)) => match signed_at(s, p1, 4) {
                    Err(e) => Err(e),
                    Ok((port, next)) => Ok(
                        (Endpoint { addr: inet_of(b).unwrap(), port: port as i32 }, next),
                    ),
                },
            }
        },
    }
}

/// Reads an `[inet]` at `pos`.
pub fn read_endpoint(bytes: &[u8], pos: usize) -> (r: Result<(Endpoint, usize), Error>)
    requires
        pos <= bytes@.len(),
    ensures
        match r {
            Ok((n, next)) => endpoint_at(bytes@, pos as nat) == Ok::<(Endpoint, nat), Error>(
                (n, next as nat),
            ) && pos < next <= bytes@.len(),
            Err(e) => endpoint_at(bytes@, pos as nat) == Err::<(Endpoint, nat), Error>(e),
        },
{
    let (n, p) = match read_byte(bytes, pos) {
        Ok(x) => x,
        Err(e) => {
            return Err(e);
        },
    };
    if n != 4 && n != 16 {
        return Err(Error::Decode(Context::Length));
    }
    if bytes.len() - p < n as usize {
        return Err(Error::Decode(Context::Truncated));
    }
    let p1 = p + n as usize;
    let addr = match decode_inet(slice_subrange(bytes, p, p1)) {
        Ok(a) => a,
        Err(e) => {
            return Err(e);
        },
    };
    match read_int(bytes, p1) {
        Ok((port, next)) => Ok((Endpoint { addr, port }, next)),
        Err(e) => Err(e),
    }
}

/// What the server reports.
#[derive(Debug)]
pub enum ServerEvent {
    /// A node joined or left the cluster.
    TopologyChange { change: String, node: Endpoint },
    /// A node went up or down.
    StatusChange { change: String, node: Endpoint },
    /// The schema changed.
    SchemaChange(SchemaChange),
}

/// What the server reports, as a mathematical value.
pub enum EventView {
    TopologyChange { change: Seq<char>, node: Endpoint },
    StatusChange { change: Seq<char>, node: Endpoint },
    SchemaChange(SchemaChangeView),
}

impl View for ServerEvent {
    type V = EventView;

    open spec fn view(&self) -> EventView {
        match self {
            ServerEvent::TopologyChange { change, node } => EventView::TopologyChange {
                change: change@,
                node: *node,
            },
            ServerEvent::StatusChange { change, node } => EventView::StatusChange {
                change: change@,
                node: *node,
            },
            ServerEvent::SchemaChange(c) => EventView::SchemaChange(c@),
        }
    }
}

/// A change and the node that it is about, at `pos`: a `[string]` and an `[inet]`.
pub open spec fn node_change_at(s: Seq<u8>, pos: nat) -> Result<((Seq<char>, Endpoint), nat), Error> {
    match string_at(s, pos) {
        Err(e) => Err(e),
        Ok((change, p)) => match endpoint_at(s, p) {
            Err(e) => Err(e),
            Ok((node, next)) => Ok(((change, node), next)),
        },
    }
}

/// The event at `pos`: its kind as a `[string]`, and what that kind reports.
#[verifier::opaque]
pub open spec fn event_at(s: Seq<u8>, pos: nat) -> Result<(EventView, nat), Error> {
    match string_at(s, pos) {
        Err(e) => Err(e),
        Ok((kind, p)) => if kind == "TOPOLOGY_CHANGE"@ {
            match node_change_at(s, p) {
                Err(e) => Err(e),
                Ok(((change, node), next)) => Ok((EventView::TopologyChange { change, node }, next)),
            }
        } else if kind == "STATUS_CHANGE"@ {
            match node_change_at(s, p) {
                Err(e) => Err(e),
                Ok(((change, node), next)) => Ok((EventView::StatusChange { change, node }, next)),
            }
        } else if kind == "SCHEMA_CHANGE"@ {
            match schema_change_at(s, p) {
                Err(e) => Err(e),
                Ok((c, next)) => Ok((EventView::SchemaChange(c), next)),
            }
        } else {
            Err(Error::Decode(Context::UnknownCode))
        },
    }
}

/// Reads a change and the node that it is about, at `pos`.
fn read_node_change(bytes: &[u8], pos: usize) -> (r: Result<((String, Endpoint), usize), Error>)
    requires
        pos <= bytes@.len(),
    ensures
        match r {
            Ok(((change, node), next)) => node_change_at(bytes@, pos as nat) == Ok::<
                ((Seq<char>, Endpoint), nat),
                Error,
            >(((change@, node), next as nat)) && pos < next <= bytes@.len(),
            Err(e) => node_change_at(bytes@, pos as nat) == Err::<
                ((Seq<char>, Endpoint), nat),
                Error,
            >(e),
        },
{
    let (change, p) = match read_string(bytes, pos) {
        Ok(x) => x,
        Err(e) => {
            return Err(e);
        },
    };
    match read_endpoint(bytes, p) {
        Ok((node, next)) => Ok(((change, node), next)),
        Err(e) => Err(e),
    }
}

/// Reads the event at `pos`.
pub fn read_event(bytes: &[u8], pos: usize) -> (r: Result<(ServerEvent, usize), Error>)
    requires
        pos <= bytes@.len(),
    ensures
        match r {
            Ok((ev, next)) => event_at(bytes@, pos as nat) == Ok::<(EventView, nat), Error>(
                (ev@, next as nat),
            ) && pos < next <= bytes@.len(),
            Err(e) => event_at(bytes@, pos as nat) == Err::<(EventView, nat), Error>(e),
        },
{
    reveal(event_at);
    let (kind, p) = match read_string(bytes, pos) {
        Ok(x) => x,
        Err(e) => {
            return Err(e);
        },
    };
    if kind == "TOPOLOGY_CHANGE".to_owned() {
        match read_node_change(bytes, p) {
            Err(e) => Err(e),
            Ok(((change, node), next)) => Ok((ServerEvent::TopologyChange { change, node }, next)),
        }
    } else if kind == "STATUS_CHANGE".to_owned() {
        match read_node_change(bytes, p) {
            Err(e) => Err(e),
            Ok(((change, node), next)) => Ok((ServerEvent::StatusChange { change, node }, next)),
        }
    } else if kind == "SCHEMA_CHANGE".to_owned() {
        match read_schema_change(bytes, p) {
            Err(e) => Err(e),
            Ok((c, next)) => Ok((ServerEvent::SchemaChange(c), next)),
        }
    } else {
        Err(Error::Decode(Context::UnknownCode))
    }
}

} // verus!
