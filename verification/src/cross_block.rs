//! The module cache that is kept from one block to the next.
//!
//! It is one `ModuleCache` with the operations that the rest of the system is
//! allowed: look up, store, walk a module's dependencies, mark the cache as
//! stale, and flush it at a block boundary. Whoever owns the value decides how
//! it is shared; every operation here takes it by reference.

use crate::module_cache::{CacheView, ModuleCache};
use crate::module_entry::{EntryView, ModuleStorageEntry};
use crate::module_id::{AccountAddress, ModuleKey, StateKey};
use crate::traversal::{
    after_link, after_local_verification, cache_after_link, enter, linked, Linking,
    LocalVerification, TraversalStep,
};
use crate::visited::VisitedSet;
use std::sync::Arc;
use vstd::prelude::*;

verus! {

/// The module cache that is kept from one block to the next.
#[verifier::reject_recursive_types(P)]
#[verifier::reject_recursive_types(M)]
pub struct CrossBlockModuleCache<P, M> {
    cache: ModuleCache<P, M>,
}

impl<P, M> View for CrossBlockModuleCache<P, M> {
    type V = CacheView<P, M>;

    closed spec fn view(&self) -> CacheView<P, M> {
        self.cache@
    }
}

impl<P, M> CrossBlockModuleCache<P, M> {
    /// The invariant of the representation. Every cache that this module hands
    /// out is well formed, and every function keeps it so.
    pub closed spec fn well_formed(&self) -> bool {
        self.cache.well_formed()
    }

    /// A cache without entries, not invalidated.
    pub fn empty() -> (cache: Self)
        ensures
            cache.well_formed(),
            cache@ == CacheView::<P, M>::empty(),
    {
        CrossBlockModuleCache { cache: ModuleCache::empty() }
    }

    /// The entry stored under `state_key`, if there is one.
    pub fn get_from_cross_block_module_cache(&self, state_key: &StateKey) -> (found: Option<
        Arc<ModuleStorageEntry<P, M>>,
    >)
        requires
            self.well_formed(),
        ensures
            match found {
                Some(entry) => self@.modules.contains_key(state_key@) && self@.modules[state_key@]
                    == (*entry)@,
                None => !self@.modules.contains_key(state_key@),
            },
    {
        self.cache.get(state_key)
    }

    /// Stores `entry` under `state_key`, in place of what was stored there.
    pub fn store_to_cross_block_module_cache(
        &mut self,
        state_key: StateKey,
        entry: Arc<ModuleStorageEntry<P, M>>,
    )
        requires
            old(self).well_formed(),
        ensures
            final(self).well_formed(),
            final(self)@ == old(self)@.store(state_key@, (*entry)@),
    {
        self.cache.insert(state_key, entry);
    }

    /// Starts the walk that verifies the module `entry`, which is to be stored
    /// under `address` and `module_name`, and everything it depends on. The
    /// walk starts with no module descended into.
    pub fn traverse<L>(
        &self,
        entry: Arc<ModuleStorageEntry<P, M>>,
        address: &AccountAddress,
        module_name: &str,
    ) -> (step: TraversalStep<P, L, M>)
        ensures
            step.well_formed(),
            step@ == enter::<P, L, M>(
                Seq::empty(),
                Set::empty(),
                (*entry)@,
                ModuleKey { address: address@, name: module_name@ },
            ),
    {
        self.cache.traverse(entry, address, module_name, VisitedSet::new())
    }

    /// Goes on with a walk after its current module was verified on its own.
    pub fn resume_local_verification<L>(
        &self,
        waiting: LocalVerification<P, L, M>,
        outcome: Result<L, u64>,
    ) -> (step: TraversalStep<P, L, M>)
        requires
            self.well_formed(),
            waiting.well_formed(),
        ensures
            step.well_formed(),
            step@ == after_local_verification(self@.modules, waiting@, outcome),
    {
        waiting.resume(&self.cache, outcome)
    }

    /// Goes on with a walk after its current module was verified against its
    /// dependencies. A module that passed is stored.
    pub fn resume_linking<L>(
        &mut self,
        waiting: Linking<P, L, M>,
        outcome: Result<Arc<M>, u64>,
    ) -> (step: TraversalStep<P, L, M>)
        requires
            old(self).well_formed(),
            waiting.well_formed(),
        ensures
            step.well_formed(),
            final(self).well_formed(),
            final(self)@.invalidated == old(self)@.invalidated,
            final(self)@.modules == cache_after_link(old(self)@.modules, waiting@, linked(outcome)),
            step@ == after_link(old(self)@.modules, waiting@, linked(outcome)),
    {
        waiting.resume(&mut self.cache, outcome)
    }

    pub fn is_invalidated(&self) -> (invalidated: bool)
        ensures
            invalidated == self@.invalidated,
    {
        self.cache.is_invalidated()
    }

    /// Marks the entries as stale. They stay until the next flush.
    pub fn mark_invalid(&mut self)
        requires
            old(self).well_formed(),
        ensures
            final(self).well_formed(),
            final(self)@ == old(self)@.mark_invalid(),
    {
        self.cache.mark_invalid();
    }

    /// Drops every entry and clears the flag if the cache was marked as stale,
    /// and does nothing if it was not. Meant to run once at each block
    /// boundary.
    pub fn flush_cross_block_module_cache_if_invalidated(&mut self)
        requires
            old(self).well_formed(),
        ensures
            final(self).well_formed(),
            final(self)@ == old(self)@.flush_if_invalidated(),
    {
        self.cache.flush_if_invalidated_and_mark_valid();
    }

    /// Drops every entry and clears the flag.
    pub fn flush(&mut self)
        ensures
            final(self).well_formed(),
            final(self)@ == CacheView::<P, M>::empty(),
    {
        self.cache.flush();
    }
}

/// The invalidation protocol. Marking a cache as stale sets the flag and
/// keeps the entries; the flush at the next block boundary then leaves an
/// empty cache that is not marked; and that flush changes nothing in a cache
/// that is not marked.
pub proof fn lemma_invalidation_protocol<P, M>(cache: CacheView<P, M>)
    ensures
        cache.mark_invalid().invalidated,
        cache.mark_invalid().modules == cache.modules,
        cache.mark_invalid().flush_if_invalidated() == CacheView::<P, M>::empty(),
        !cache.mark_invalid().flush_if_invalidated().invalidated,
        cache.mark_invalid().flush_if_invalidated().modules == Map::<
            ModuleKey,
            EntryView<P, M>,
        >::empty(),
        !cache.invalidated ==> cache.flush_if_invalidated() == cache,
{
}

} // verus!
