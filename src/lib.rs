//! Persistent memoization: cache keys derived from a function's identity and
//! its arguments, storage backends keyed by those strings, and the
//! get-or-compute protocol that ties them together.
use vstd::prelude::*;

pub mod error;
pub mod key;
pub mod memo;
pub mod storage;

verus! {

/// Every stored entry's key starts with this string followed by `_`.
/// Flushing a backend removes exactly the entries under it.
pub const PREFIX: &'static str = "pc";

} // verus!
