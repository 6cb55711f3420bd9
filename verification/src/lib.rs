//! Core of a client for the Cassandra binary protocol (CQL v4): the wire codec
//! for frames and their bodies, and typed access to the values of a result.

pub mod endian;
pub mod error;
pub mod frame;
pub mod primitive;
pub mod wire;
pub mod column;
pub mod value;
pub mod native;
pub mod duration;
pub mod list;
pub mod cql_map;
pub mod udt;
pub mod tuple;
pub mod metadata;
pub mod result;
pub mod consistency;
pub mod schema;
pub mod server_error;
pub mod event;
pub mod response;
pub mod request;
pub mod query;
pub mod session;
