//! The cache of modules that outlives a block, with its invalidation flag.

use crate::module_entry::{EntryView, ModuleStorageEntry};
use crate::module_id::{ModuleKey, StateKey};
use crate::module_map::ModuleMap;
use std::sync::Arc;
use vstd::prelude::*;

verus! {

/// What a `ModuleCache` stands for.
pub struct CacheView<P, M> {
    /// Whether the entries may be stale and are to be dropped at the next
    /// block boundary.
    pub invalidated: bool,
    pub modules: Map<ModuleKey, EntryView<P, M>>,
}

impl<P, M> CacheView<P, M> {
    /// The cache with no entries, not invalidated.
    pub open spec fn empty() -> Self {
        CacheView { invalidated: false, modules: Map::empty() }
    }

    /// The cache after the invalidation flag was set: the entries stay.
    pub open spec fn mark_invalid(self) -> Self {
        CacheView { invalidated: true, modules: self.modules }
    }

    /// The cache at a block boundary: emptied if it was invalidated, as it was
    /// if not.
    pub open spec fn flush_if_invalidated(self) -> Self {
        if self.invalidated {
            Self::empty()
        } else {
            self
        }
    }

    /// The cache after `entry` was stored under `key`.
    pub open spec fn store(self, key: ModuleKey, entry: EntryView<P, M>) -> Self {
        CacheView { invalidated: self.invalidated, modules: self.modules.insert(key, entry) }
    }
}

/// A map from storage keys to module entries, and a flag that says whether
/// the entries may be stale.
#[verifier::reject_recursive_types(P)]
#[verifier::reject_recursive_types(M)]
pub struct ModuleCache<P, M> {
    invalidated: bool,
    modules: ModuleMap<P, M>,
}

impl<P, M> View for ModuleCache<P, M> {
    type V = CacheView<P, M>;

    closed spec fn view(&self) -> CacheView<P, M> {
        CacheView { invalidated: self.invalidated, modules: self.modules@ }
    }
}

impl<P, M> ModuleCache<P, M> {
    /// The invariant of the representation. Every cache that this module hands
    /// out is well formed, and every function keeps it so.
    pub closed spec fn well_formed(&self) -> bool {
        self.modules.well_formed()
    }

    pub fn empty() -> (cache: Self)
        ensures
            cache.well_formed(),
            cache@ == CacheView::<P, M>::empty(),
    {
        ModuleCache { invalidated: false, modules: ModuleMap::new() }
    }

    /// Drops every entry and clears the invalidation flag.
    pub fn flush(&mut self)
        ensures
            final(self).well_formed(),
            final(self)@ == CacheView::<P, M>::empty(),
    {
        self.invalidated = false;
        self.modules.clear();
    }

    /// Drops every entry and clears the flag if the cache was invalidated, and
    /// does nothing if it was not.
    pub fn flush_if_invalidated_and_mark_valid(&mut self)
        requires
            old(self).well_formed(),
        ensures
            final(self).well_formed(),
            final(self)@ == old(self)@.flush_if_invalidated(),
    {
        if self.invalidated {
            self.invalidated = false;
            self.modules.clear();
        }
    }

    pub fn is_invalidated(&self) -> (invalidated: bool)
        ensures
            invalidated == self@.invalidated,
    {
        self.invalidated
    }

    /// Sets the invalidation flag. The entries stay until the next flush.
    pub fn mark_invalid(&mut self)
        requires
            old(self).well_formed(),
        ensures
            final(self).well_formed(),
            final(self)@ == old(self)@.mark_invalid(),
    {
        self.invalidated = true;
    }

    /// The entry stored under `key`, if there is one.
    pub fn get(&self, key: &StateKey) -> (found: Option<Arc<ModuleStorageEntry<P, M>>>)
        requires
            self.well_formed(),
        ensures
            match found {
                Some(entry) => self@.modules.contains_key(key@) && self@.modules[key@] == (*entry)@,
                None => !self@.modules.contains_key(key@),
            },
    {
        self.modules.get(key)
    }

    /// Stores `entry` under `key`, in place of what was stored there.
    pub fn insert(&mut self, key: StateKey, entry: Arc<ModuleStorageEntry<P, M>>)
        requires
            old(self).well_formed(),
        ensures
            final(self).well_formed(),
            final(self)@ == old(self)@.store(key@, (*entry)@),
    {
        self.modules.insert(key, entry);
    }
}

} // verus!
