//! Storage backends: where encoded results live between calls.
use vstd::prelude::*;

use crate::error::CacheError;
use crate::storage::file::{matching, regex_matches};

pub mod file;
pub mod file_memory;
pub mod memory;
pub mod redis;

verus! {

/// A durable store of encoded results, shared between processes.
pub trait PersistentCache {
    /// The bytes stored under `key`; empty bytes when there is no entry.
    fn get(&mut self, key: &str) -> Result<Vec<u8>, CacheError>;

    /// Stores `value` under `key`, replacing what was there.
    fn set(&mut self, key: &str, value: &[u8]) -> Result<(), CacheError>;

    /// Removes every entry whose key starts with the prefix and `_`.
    fn flush(&mut self) -> Result<(), CacheError>;
}

/// What a storage with contents `m` returns for `key`: the stored bytes, or
/// empty bytes when the key is absent.
pub open spec fn stored_bytes(m: Map<Seq<char>, Seq<u8>>, key: Seq<char>) -> Seq<u8> {
    if m.contains_key(key) { m[key] } else { Seq::empty() }
}

/// Reading a key right after storing bytes under it gives those bytes back,
/// and leaves every other key as it was.
pub proof fn law_set_then_get(m: Map<Seq<char>, Seq<u8>>, key: Seq<char>, value: Seq<u8>)
    ensures
        stored_bytes(m.insert(key, value), key) == value,
        forall|other: Seq<char>| other != key ==>
            #[trigger] stored_bytes(m.insert(key, value), other) == stored_bytes(m, other),
{
    assert forall|other: Seq<char>| other != key implies
        #[trigger] stored_bytes(m.insert(key, value), other) == stored_bytes(m, other) by {
        if m.contains_key(other) {
            assert(m.insert(key, value).contains_key(other));
        } else {
            assert(!m.insert(key, value).contains_key(other));
        }
    }
}

/// Reading a key that was never stored gives empty bytes, not an error.
pub proof fn law_absent_reads_empty(m: Map<Seq<char>, Seq<u8>>, key: Seq<char>)
    requires
        !m.contains_key(key),
    ensures
        stored_bytes(m, key) == Seq::<u8>::empty(),
{
}

/// A flush selects a found path exactly when the flush pattern matches it;
/// every other path is left alone.
pub proof fn law_flush_selects_matches(pattern: Seq<char>, paths: Seq<Seq<char>>)
    ensures
        forall|i: int| 0 <= i < paths.len() ==>
            (matching(pattern, paths).contains(#[trigger] paths[i]) <==> regex_matches(pattern, paths[i])),
        forall|p: Seq<char>| #[trigger] matching(pattern, paths).contains(p) ==>
            paths.contains(p) && regex_matches(pattern, p),
    decreases paths.len(),
{
    if paths.len() > 0 {
        let init = paths.drop_last();
        let last = paths.last();
        law_flush_selects_matches(pattern, init);
        let sel = matching(pattern, paths);
        let sub = matching(pattern, init);
        assert forall|p: Seq<char>| #[trigger] sel.contains(p) implies
            paths.contains(p) && regex_matches(pattern, p) by {
            if sub.contains(p) {
                let j = choose|j: int| 0 <= j < init.len() && init[j] == p;
                assert(paths[j] == p);
            } else {
                let k = choose|k: int| 0 <= k < sel.len() && sel[k] == p;
                assert(regex_matches(pattern, last));
                assert(sel == sub.push(last));
                assert(k == sub.len());
                assert(paths[paths.len() - 1] == p);
            }
        }
        assert forall|i: int| 0 <= i < paths.len() implies
            (sel.contains(#[trigger] paths[i]) <==> regex_matches(pattern, paths[i])) by {
            if regex_matches(pattern, paths[i]) {
                if i < paths.len() - 1 {
                    assert(init[i] == paths[i]);
                    let j = choose|j: int| 0 <= j < sub.len() && sub[j] == paths[i];
                    if regex_matches(pattern, last) {
                        assert(sel[j] == paths[i]);
                    }
                } else {
                    assert(sel[sel.len() - 1] == paths[i]);
                }
            }
        }
    }
}

} // verus!
