use vstd::prelude::*;

verus! {

/// Failures that a query step can surface.
///
/// Running out of buffer space is deliberately *not* an error: it is reported
/// through the step outcome so the caller can grow a buffer and retry.
#[derive(Debug)]
pub enum Error {
    /// An opaque failure reported by the engine, for example a registration
    /// against a field the query does not project.
    Engine(String),
    /// An internal-consistency failure: a step reported `bytes` bytes written
    /// for a field but derived `records` record boundaries, with `records`
    /// zero while bytes were produced.
    ProtocolViolation { records: usize, bytes: usize },
}

/// Result alias used throughout the crate.
pub type TileDBResult<T> = Result<T, Error>;

} // verus!
