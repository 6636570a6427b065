//! The get-or-compute protocol of one memoized call.
//!
//! A `CachedCall` decides; its driver performs each action on a storage and
//! the computation, and reports what happened:
//!
//! 1. `Fetch(key)`: read the key. Empty bytes mean the entry is absent.
//! 2. On a miss, `Compute`: run the computation and encode its result.
//! 3. `Store(key, bytes)`: persist the encoding, then `UseComputed`.
//! 4. On a hit, `UseStored(bytes)`: decode the stored bytes. A decode
//!    failure is an error, never a miss.
//!
//! Errors of the storage, the encoding and the decoding end the call and go
//! to its caller unchanged.
use vstd::prelude::*;

use crate::storage::stored_bytes;

verus! {

/// Where a call stands.
#[derive(Debug, Clone, Copy, PartialEq, Eq, Structural)]
pub enum Stage {
    Fetching,
    Computing,
    Storing,
    Done,
}

/// What the driver reports after performing an action.
pub enum Event {
    /// The storage returned these bytes for the key.
    Fetched(Vec<u8>),
    /// The computation ran and its result encodes to these bytes.
    Computed(Vec<u8>),
    /// The storage accepted the encoding.
    Stored,
}

/// What the driver does next.
#[derive(Debug)]
pub enum Action {
    /// Read the entry of this key.
    Fetch(String),
    /// Run the computation and encode its result.
    Compute,
    /// Write these bytes under this key.
    Store(String, Vec<u8>),
    /// Finish with the decoding of these stored bytes.
    UseStored(Vec<u8>),
    /// Finish with the value just computed.
    UseComputed,
}

pub ghost enum EventView {
    Fetched(Seq<u8>),
    Computed(Seq<u8>),
    Stored,
}

pub ghost enum ActionView {
    Fetch(Seq<char>),
    Compute,
    Store(Seq<char>, Seq<u8>),
    UseStored(Seq<u8>),
    UseComputed,
}

impl View for Event {
    type V = EventView;

    open spec fn view(&self) -> EventView {
        match self {
            Event::Fetched(b) => EventView::Fetched(b@),
            Event::Computed(b) => EventView::Computed(b@),
            Event::Stored => EventView::Stored,
        }
    }
}

impl View for Action {
    type V = ActionView;

    open spec fn view(&self) -> ActionView {
        match self {
            Action::Fetch(k) => ActionView::Fetch(k@),
            Action::Compute => ActionView::Compute,
            Action::Store(k, b) => ActionView::Store(k@, b@),
            Action::UseStored(b) => ActionView::UseStored(b@),
            Action::UseComputed => ActionView::UseComputed,
        }
    }
}

/// The event that the driver can report at `stage`.
pub open spec fn expects(stage: Stage, event: EventView) -> bool {
    match (stage, event) {
        (Stage::Fetching, EventView::Fetched(_)) => true,
        (Stage::Computing, EventView::Computed(_)) => true,
        (Stage::Storing, EventView::Stored) => true,
        _ => false,
    }
}

/// The next stage and action of a call on `key` at `stage` on `event`.
pub open spec fn transition(stage: Stage, key: Seq<char>, event: EventView) -> (Stage, ActionView) {
    match event {
        EventView::Fetched(b) => if b.len() == 0 {
            (Stage::Computing, ActionView::Compute)
        } else {
            (Stage::Done, ActionView::UseStored(b))
        },
        EventView::Computed(b) => (Stage::Storing, ActionView::Store(key, b)),
        EventView::Stored => (Stage::Done, ActionView::UseComputed),
    }
}

/// One memoized call in progress.
pub struct CachedCall {
    key: String,
    stage: Stage,
}

impl CachedCall {
    pub closed spec fn key(&self) -> Seq<char> {
        self.key@
    }

    pub closed spec fn stage(&self) -> Stage {
        self.stage
    }

    /// Starts a call on `key`; the first action reads the key.
    pub fn start(key: String) -> (r: (CachedCall, Action))
        ensures
            r.0.key() == key@,
            r.0.stage() == Stage::Fetching,
            r.1@ == ActionView::Fetch(key@),
    {
        let k = key.clone();
        (CachedCall { key, stage: Stage::Fetching }, Action::Fetch(k))
    }

    /// Where the call stands.
    pub fn current_stage(&self) -> (r: Stage)
        ensures
            r == self.stage(),
    {
        self.stage
    }

    /// Takes the driver's report and returns the next action.
    pub fn advance(&mut self, event: Event) -> (r: Action)
        requires
            expects(old(self).stage(), event@),
        ensures
            final(self).key() == old(self).key(),
            (final(self).stage(), r@) == transition(old(self).stage(), old(self).key(), event@),
    {
        match event {
            Event::Fetched(b) => {
                if b.len() == 0 {
                    self.stage = Stage::Computing;
                    Action::Compute
                } else {
                    self.stage = Stage::Done;
                    Action::UseStored(b)
                }
            },
            Event::Computed(b) => {
                self.stage = Stage::Storing;
                Action::Store(self.key.clone(), b)
            },
            Event::Stored => {
                self.stage = Stage::Done;
                Action::UseComputed
            },
        }
    }
}

/// A whole call on `key` against a storage with contents `m`, driven by the
/// transitions above, when the computation's result encodes to `encoded`:
/// the bytes the call ends with, whether it computed, and the contents after.
pub open spec fn run_call(m: Map<Seq<char>, Seq<u8>>, key: Seq<char>, encoded: Seq<u8>)
    -> (Seq<u8>, bool, Map<Seq<char>, Seq<u8>>)
{
    let (s1, a1) = transition(Stage::Fetching, key, EventView::Fetched(stored_bytes(m, key)));
    match a1 {
        ActionView::Compute => {
            let (s2, a2) = transition(s1, key, EventView::Computed(encoded));
            match a2 {
                ActionView::Store(k, b) => (b, true, m.insert(k, b)),
                _ => (Seq::empty(), true, m),
            }
        },
        ActionView::UseStored(b) => (b, false, m),
        _ => (Seq::empty(), false, m),
    }
}

/// The first call on a key that is absent computes once and stores the
/// encoding under the key; a second call on the same key does not compute
/// and ends with the stored encoding. This needs a non-empty encoding: an
/// empty one cannot be told apart from an absent entry.
pub proof fn law_compute_once_then_reuse(
    m: Map<Seq<char>, Seq<u8>>,
    key: Seq<char>,
    encoded: Seq<u8>,
    encoded_again: Seq<u8>,
)
    requires
        !m.contains_key(key),
        encoded.len() > 0,
    ensures
        run_call(m, key, encoded).1,
        run_call(m, key, encoded).0 == encoded,
        run_call(m, key, encoded).2 == m.insert(key, encoded),
        !run_call(run_call(m, key, encoded).2, key, encoded_again).1,
        run_call(run_call(m, key, encoded).2, key, encoded_again).0 == encoded,
        run_call(run_call(m, key, encoded).2, key, encoded_again).2 == m.insert(key, encoded),
{
    let m2 = m.insert(key, encoded);
    assert(stored_bytes(m2, key) == encoded);
}

} // verus!
