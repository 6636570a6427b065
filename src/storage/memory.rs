//! A process-local map from keys to stored bytes.
use vstd::prelude::*;

verus! {

/// An in-memory map from key text to bytes, kept as a list of entries with
/// distinct keys.
pub struct MemoryIndex {
    entries: Vec<(String, Vec<u8>)>,
    contents: Ghost<Map<Seq<char>, Seq<u8>>>,
}

impl View for MemoryIndex {
    type V = Map<Seq<char>, Seq<u8>>;

    closed spec fn view(&self) -> Map<Seq<char>, Seq<u8>> {
        self.contents@
    }
}

impl MemoryIndex {
    /// The entry list holds exactly the map's pairs, each key once.
    pub closed spec fn wf(&self) -> bool {
        &&& forall|i: int| 0 <= i < self.entries@.len() ==>
            #[trigger] self.contents@.contains_key(self.entries@[i].0@)
            && self.contents@[self.entries@[i].0@] == self.entries@[i].1@
        &&& forall|k: Seq<char>| #[trigger] self.contents@.contains_key(k) ==>
            exists|i: int| 0 <= i < self.entries@.len() && self.entries@[i].0@ == k
        &&& forall|i: int, j: int| 0 <= i < j < self.entries@.len() ==>
            #[trigger] self.entries@[i].0@ != #[trigger] self.entries@[j].0@
    }

    /// An empty index.
    pub fn new() -> (r: MemoryIndex)
        ensures
            r.wf(),
            r@ == Map::<Seq<char>, Seq<u8>>::empty(),
    {
        MemoryIndex { entries: Vec::new(), contents: Ghost(Map::empty()) }
    }

    fn position(&self, key: &str) -> (r: Option<usize>)
        requires
            self.wf(),
        ensures
            match r {
                Some(i) => i < self.entries@.len() && self.entries@[i as int].0@ == key@,
                None => !self@.contains_key(key@),
            },
    {
        let wanted: String = key.to_owned();
        let mut i: usize = 0;
        while i < self.entries.len()
            invariant
                self.wf(),
                wanted@ == key@,
                i <= self.entries@.len(),
                forall|j: int| 0 <= j < i ==> self.entries@[j].0@ != key@,
            decreases self.entries@.len() - i,
        {
            if self.entries[i].0 == wanted {
                return Some(i);
            }
            i = i + 1;
        }
        None
    }

    /// The bytes stored under `key`, if any.
    pub fn lookup(&self, key: &str) -> (r: Option<Vec<u8>>)
        requires
            self.wf(),
        ensures
            match r {
                Some(v) => self@.contains_key(key@) && v@ == self@[key@],
                None => !self@.contains_key(key@),
            },
    {
        match self.position(key) {
            Some(i) => {
                let v = self.entries[i].1.clone();
                assert(v@ =~= self.entries@[i as int].1@);
                assert(self.contents@.contains_key(self.entries@[i as int].0@));
                Some(v)
            },
            None => None,
        }
    }

    /// Stores `value` under `key`, replacing what was there.
    pub fn insert(&mut self, key: &str, value: Vec<u8>)
        requires
            old(self).wf(),
        ensures
            final(self).wf(),
            final(self)@ == old(self)@.insert(key@, value@),
    {
        let ghost m = self@.insert(key@, value@);
        match self.position(key) {
            Some(i) => {
                let k: String = key.to_owned();
                self.entries.set(i, (k, value));
                self.contents = Ghost(m);
                assert forall|j: int| 0 <= j < self.entries@.len() implies
                    #[trigger] self.contents@.contains_key(self.entries@[j].0@)
                    && self.contents@[self.entries@[j].0@] == self.entries@[j].1@ by {
                    if j != i {
                        assert(old(self).contents@.contains_key(old(self).entries@[j].0@));
                        if j < i {
                            assert(old(self).entries@[j].0@ != old(self).entries@[i as int].0@);
                        } else {
                            assert(old(self).entries@[i as int].0@ != old(self).entries@[j].0@);
                        }
                    }
                }
                assert forall|a: int, b: int| 0 <= a < b < self.entries@.len() implies
                    #[trigger] self.entries@[a].0@ != #[trigger] self.entries@[b].0@ by {
                    assert(old(self).entries@[a].0@ != old(self).entries@[b].0@);
                }
                assert forall|k: Seq<char>| #[trigger] self.contents@.contains_key(k) implies
                    exists|j: int| 0 <= j < self.entries@.len() && self.entries@[j].0@ == k by {
                    if k != key@ {
                        let j = choose|j: int| 0 <= j < old(self).entries@.len() && old(self).entries@[j].0@ == k;
                        assert(self.entries@[j].0@ == k);
                    } else {
                        assert(self.entries@[i as int].0@ == k);
                    }
                }
            },
            None => {
                let k: String = key.to_owned();
                self.entries.push((k, value));
                self.contents = Ghost(m);
                let ghost n = old(self).entries@.len() as int;
                assert forall|j: int| 0 <= j < self.entries@.len() implies
                    #[trigger] self.contents@.contains_key(self.entries@[j].0@)
                    && self.contents@[self.entries@[j].0@] == self.entries@[j].1@ by {
                    if j < n {
                        assert(old(self).contents@.contains_key(old(self).entries@[j].0@));
                        assert(self.entries@[j] == old(self).entries@[j]);
                    }
                }
                assert forall|a: int, b: int| 0 <= a < b < self.entries@.len() implies
                    #[trigger] self.entries@[a].0@ != #[trigger] self.entries@[b].0@ by {
                    assert(self.entries@[a] == old(self).entries@[a]);
                    if b < n {
                        assert(self.entries@[b] == old(self).entries@[b]);
                    } else {
                        assert(old(self).contents@.contains_key(old(self).entries@[a].0@));
                    }
                }
                assert forall|k: Seq<char>| #[trigger] self.contents@.contains_key(k) implies
                    exists|j: int| 0 <= j < self.entries@.len() && self.entries@[j].0@ == k by {
                    if k != key@ {
                        let j = choose|j: int| 0 <= j < old(self).entries@.len() && old(self).entries@[j].0@ == k;
                        assert(self.entries@[j].0@ == k);
                    } else {
                        assert(self.entries@[self.entries@.len() - 1].0@ == k);
                    }
                }
            },
        }
    }

    /// Forgets every entry.
    pub fn clear(&mut self)
        requires
            old(self).wf(),
        ensures
            final(self).wf(),
            final(self)@ == Map::<Seq<char>, Seq<u8>>::empty(),
    {
        self.entries = Vec::new();
        self.contents = Ghost(Map::empty());
    }
}

} // verus!
