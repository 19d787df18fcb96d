//! Persistence adapters for core snapshots.

use vstd::prelude::*;
use crate::model::{CoreError, CoreSnapshot};

verus! {

/// A place where the core's snapshot is kept between runs. Platform shells
/// implement it over their own storage.
pub trait CoreStore {
    fn load(&self) -> Result<CoreSnapshot, CoreError>;

    fn save(&mut self, snapshot: CoreSnapshot) -> Result<(), CoreError>;
}

/// Deterministic in-memory store used by tests and previews.
#[derive(Clone, Debug)]
pub struct InMemoryStore {
    snapshot: CoreSnapshot,
}

impl InMemoryStore {
    /// The snapshot the store currently holds.
    pub closed spec fn stored(self) -> CoreSnapshot {
        self.snapshot
    }
}

impl Default for InMemoryStore {
    fn default() -> (r: Self)
        ensures
            r.stored().accounts@.len() == 0,
            r.stored().contacts@.len() == 0,
            r.stored().conversations@.len() == 0,
            r.stored().messages@.len() == 0,
            r.stored().reactions@.len() == 0,
    {
        InMemoryStore { snapshot: CoreSnapshot::default() }
    }
}

impl CoreStore for InMemoryStore {
    /// Always succeeds, with a copy of the snapshot last saved.
    fn load(&self) -> (r: Result<CoreSnapshot, CoreError>)
        ensures
            r is Ok,
            r->Ok_0.same(self.stored()),
    {
        Ok(self.snapshot.clone())
    }

    /// Always succeeds; the store then holds exactly `snapshot`.
    fn save(&mut self, snapshot: CoreSnapshot) -> (r: Result<(), CoreError>)
        ensures
            r is Ok,
            final(self).stored() == snapshot,
    {
        self.snapshot = snapshot;
        Ok(())
    }
}

} // verus!
