//! Errors reported by the cache.
use vstd::prelude::*;

verus! {

/// What went wrong in a cache operation. Every error reaches the caller of
/// the failing operation unchanged; nothing is retried.
#[derive(Debug, Clone, Copy, PartialEq, Eq, Structural)]
pub enum CacheError {
    /// Opening, locking, reading or writing a file failed.
    Io,
    /// The remote store could not be reached or rejected a command.
    Connection,
    /// The pattern that selects entries to flush does not compile.
    Pattern,
    /// A computed value could not be encoded.
    Encode,
    /// A stored entry could not be decoded.
    Decode,
}

} // verus!
