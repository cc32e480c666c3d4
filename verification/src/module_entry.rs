//! Modules as the cache stores them.

use crate::module_id::{ModuleKey, StateKey};
use std::sync::Arc;
use vstd::prelude::*;

verus! {

/// `Arc::clone`: a second handle to the value that `handle` points to. Nothing
/// is copied but the pointer, so the two handles are equal.
#[verifier::external_body]
pub(crate) fn share<T>(handle: &Arc<T>) -> (other: Arc<T>)
    ensures
        other == *handle,
{
    Arc::clone(handle)
}

/// The keys that a list of `StateKey`s stands for, in the same order.
pub open spec fn keys_of(keys: Seq<StateKey>) -> Seq<ModuleKey> {
    keys.map_values(|key: StateKey| key@)
}

/// What a `ModuleStateValue` stands for.
pub struct StateValueView<P> {
    pub parsed: P,
    pub hash: Seq<u8>,
    pub size: nat,
    pub id: ModuleKey,
    pub dependencies: Seq<ModuleKey>,
}

/// A module as it is read from state and parsed, before any verification: the
/// hash and the size that identify its bytes, the address and name that the
/// module declares for itself, and the modules it declares as immediate
/// dependencies, in declaration order. `P` is the type of the module itself,
/// its bytes and what they parse to; it is carried along and not looked at.
#[derive(Debug)]
pub struct ModuleStateValue<P> {
    parsed: P,
    hash: [u8; 32],
    size: usize,
    id: StateKey,
    dependencies: Vec<StateKey>,
}

impl<P> View for ModuleStateValue<P> {
    type V = StateValueView<P>;

    closed spec fn view(&self) -> StateValueView<P> {
        StateValueView {
            parsed: self.parsed,
            hash: self.hash@,
            size: self.size as nat,
            id: self.id@,
            dependencies: keys_of(self.dependencies@),
        }
    }
}

impl<P> ModuleStateValue<P> {
    pub fn new(
        parsed: P,
        hash: [u8; 32],
        size: usize,
        id: StateKey,
        dependencies: Vec<StateKey>,
    ) -> (value: Self)
        ensures
            value@ == (StateValueView {
                parsed,
                hash: hash@,
                size: size as nat,
                id: id@,
                dependencies: keys_of(dependencies@),
            }),
    {
        ModuleStateValue { parsed, hash, size, id, dependencies }
    }

    /// The module itself.
    pub fn parsed(&self) -> (parsed: &P)
        ensures
            *parsed == self@.parsed,
    {
        &self.parsed
    }

    pub fn hash(&self) -> (hash: &[u8; 32])
        ensures
            hash@ == self@.hash,
    {
        &self.hash
    }

    pub fn size_in_bytes(&self) -> (size: usize)
        ensures
            size == self@.size,
    {
        self.size
    }

    /// The address and name that the module declares for itself.
    pub fn self_id(&self) -> (id: &StateKey)
        ensures
            id@ == self@.id,
    {
        &self.id
    }

    /// The modules that this one declares as immediate dependencies.
    pub fn immediate_dependencies(&self) -> (dependencies: &Vec<StateKey>)
        ensures
            keys_of(dependencies@) == self@.dependencies,
    {
        &self.dependencies
    }
}

/// What a `ModuleStorageEntry` stands for: the parsed module, and the verified
/// module once there is one.
pub struct EntryView<P, M> {
    pub value: StateValueView<P>,
    pub module: Option<M>,
}

impl<P, M> EntryView<P, M> {
    pub open spec fn is_verified(self) -> bool {
        self.module is Some
    }
}

/// A module in one of two states: parsed but not verified, or verified, in
/// which case it also holds the verified module, of type `M`. An entry never
/// changes; `make_verified` gives a new one.
#[derive(Debug)]
pub struct ModuleStorageEntry<P, M> {
    value: Arc<ModuleStateValue<P>>,
    module: Option<Arc<M>>,
}

impl<P, M> View for ModuleStorageEntry<P, M> {
    type V = EntryView<P, M>;

    closed spec fn view(&self) -> EntryView<P, M> {
        EntryView {
            value: (*self.value)@,
            module: match self.module {
                Some(module) => Some(*module),
                None => None,
            },
        }
    }
}

impl<P, M> ModuleStorageEntry<P, M> {
    /// The entry of a module that was read from state and not verified yet.
    pub fn from_state_value(value: ModuleStateValue<P>) -> (entry: Self)
        ensures
            entry@ == (EntryView::<P, M> { value: value@, module: None }),
    {
        ModuleStorageEntry { value: Arc::new(value), module: None }
    }

    /// The entry of a module that was read from state and is known to verify
    /// as `module`.
    pub fn from_state_value_and_verified_module(
        value: ModuleStateValue<P>,
        module: Arc<M>,
    ) -> (entry: Self)
        ensures
            entry@ == (EntryView { value: value@, module: Some(*module) }),
    {
        ModuleStorageEntry { value: Arc::new(value), module: Some(module) }
    }

    /// The same module, verified as `module`.
    pub fn make_verified(&self, module: Arc<M>) -> (entry: Self)
        ensures
            entry@ == (EntryView { value: self@.value, module: Some(*module) }),
    {
        ModuleStorageEntry { value: share(&self.value), module: Some(module) }
    }

    pub fn is_verified(&self) -> (verified: bool)
        ensures
            verified == self@.is_verified(),
    {
        self.module.is_some()
    }

    /// The verified module, where the entry holds one.
    pub fn try_as_verified_module(&self) -> (module: Option<Arc<M>>)
        ensures
            match module {
                Some(module) => self@.module == Some(*module),
                None => self@.module is None,
            },
    {
        match &self.module {
            Some(module) => Some(share(module)),
            None => None,
        }
    }

    /// The module as it was read and parsed.
    pub fn state_value(&self) -> (value: &ModuleStateValue<P>)
        ensures
            value@ == self@.value,
    {
        &self.value
    }

    /// The module itself.
    pub fn parsed(&self) -> (parsed: &P)
        ensures
            *parsed == self@.value.parsed,
    {
        self.value.parsed()
    }

    pub fn hash(&self) -> (hash: &[u8; 32])
        ensures
            hash@ == self@.value.hash,
    {
        self.value.hash()
    }

    pub fn size_in_bytes(&self) -> (size: usize)
        ensures
            size == self@.value.size,
    {
        self.value.size_in_bytes()
    }
}

} // verus!
