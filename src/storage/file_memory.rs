//! File storage with a process-local read cache in front of it.
//!
//! Reads are served from memory when the key has been seen in this process;
//! otherwise the file is read and a non-empty result is remembered. Writes go
//! to memory and straight through to the file. A flush forgets everything in
//! memory and removes the flushed files. Changes that other processes make to
//! the directory are not noticed.
use vstd::prelude::*;

use crate::error::CacheError;
use crate::storage::file::FileStorage;
use crate::storage::memory::MemoryIndex;

verus! {

pub struct FileMemoryStorage {
    files: FileStorage,
    mem: MemoryIndex,
}

impl FileMemoryStorage {
    pub closed spec fn wf(&self) -> bool {
        self.mem.wf()
    }

    /// The directory of the underlying file storage.
    pub closed spec fn dir(&self) -> Seq<char> {
        self.files@
    }

    /// What this process remembers of the stored entries.
    pub closed spec fn memory(&self) -> Map<Seq<char>, Seq<u8>> {
        self.mem@
    }

    /// A storage in directory `path` that remembers nothing yet.
    pub fn new(path: &str) -> (r: FileMemoryStorage)
        ensures
            r.wf(),
            r.dir() == path@,
            r.memory() == Map::<Seq<char>, Seq<u8>>::empty(),
    {
        FileMemoryStorage { files: FileStorage::new(path), mem: MemoryIndex::new() }
    }

    /// The underlying file storage.
    pub fn files(&self) -> (r: &FileStorage)
        ensures
            r@ == self.dir(),
    {
        &self.files
    }

    /// The bytes remembered for `key`; `None` means the file must be read.
    pub fn cached(&self, key: &str) -> (r: Option<Vec<u8>>)
        requires
            self.wf(),
        ensures
            match r {
                Some(v) => self.memory().contains_key(key@) && v@ == self.memory()[key@],
                None => !self.memory().contains_key(key@),
            },
    {
        self.mem.lookup(key)
    }

    /// Takes the outcome of reading the file of `key` after a miss in
    /// memory, remembers it when it is non-empty, and hands it back.
    pub fn complete_read(&mut self, key: &str, read: Result<Vec<u8>, CacheError>) -> (r: Result<Vec<u8>, CacheError>)
        requires
            old(self).wf(),
        ensures
            final(self).wf(),
            final(self).dir() == old(self).dir(),
            r == read,
            final(self).memory() == (match read {
                Ok(v) => if v@.len() > 0 { old(self).memory().insert(key@, v@) } else { old(self).memory() },
                Err(_) => old(self).memory(),
            }),
    {
        match read {
            Ok(v) => {
                if v.len() > 0 {
                    self.mem.insert(key, v.clone());
                }
                Ok(v)
            },
            Err(e) => Err(e),
        }
    }

    /// Remembers `value` for `key`; the caller writes the file as well.
    pub fn remember(&mut self, key: &str, value: &[u8])
        requires
            old(self).wf(),
        ensures
            final(self).wf(),
            final(self).dir() == old(self).dir(),
            final(self).memory() == old(self).memory().insert(key@, value@),
    {
        let mut v: Vec<u8> = Vec::new();
        v.extend_from_slice(value);
        assert(v@ =~= value@);
        self.mem.insert(key, v);
    }

    /// Forgets everything remembered; the caller flushes the files as well.
    pub fn forget_all(&mut self)
        requires
            old(self).wf(),
        ensures
            final(self).wf(),
            final(self).dir() == old(self).dir(),
            final(self).memory() == Map::<Seq<char>, Seq<u8>>::empty(),
    {
        self.mem.clear();
    }
}

} // verus!
