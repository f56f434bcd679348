//! Client core for a school intranet portal: a type-state session protocol,
//! token extraction from server-rendered pages, request construction for the
//! resource and timetable endpoints, and a decoder that normalizes the
//! server's loosely-typed wire format into a clean domain model.

use vstd::prelude::*;

pub mod decode;
pub mod intranet_client;
pub mod json;
pub mod name;
pub mod resources;
pub mod strutil;
pub mod timetable;

verus! {

/// The distinct failure kinds surfaced by this library. None is ever
/// downgraded to a default value; callers decide any retry policy.
#[derive(Clone, Copy, Debug, PartialEq, Eq, Structural)]
pub enum Error {
    /// Network, timeout or TLS failure in the transport.
    TransportError,
    /// A response carried a non-success HTTP status (the status is kept).
    HttpStatusError(u16),
    /// An expected HTML element or embedded token pattern was absent.
    TokenNotFound,
    /// A payload did not match the expected shape, including any coercion
    /// failure and any unrecognized field under the completeness guard.
    DecodeError,
    /// A student name had no matching directory entry.
    LookupNotFound,
}

} // verus!
