//! The framework's modules, loaded ahead of use.
//!
//! Almost every transaction reads some of the modules that are published at
//! address `0x1`. They are known beforehand, so they are loaded eagerly into a
//! map of their own, which is built in full and then put in place of the
//! previous one: a reader sees the old map or the new one, never a part of one.

use crate::module_entry::{EntryView, ModuleStateValue, ModuleStorageEntry, StateValueView};
use crate::module_id::{AccountAddress, ModuleKey, StateKey};
use crate::module_map::ModuleMap;
use std::sync::Arc;
use vstd::prelude::*;

verus! {

/// The names of the framework's modules, each after the modules it depends
/// on. The list is kept by hand.
pub open spec fn framework_module_names() -> Seq<Seq<char>> {
    seq![
        // The standard library.
        "vector"@,
        "signer"@,
        "error"@,
        "hash"@,
        "features"@,
        "bcs"@,
        "option"@,
        "string"@,
        "fixed_point32"@,
        // The extended standard library.
        "type_info"@,
        "ed25519"@,
        "from_bcs"@,
        "multi_ed25519"@,
        "table"@,
        "bls12381"@,
        "math64"@,
        "fixed_point64"@,
        "math128"@,
        "math_fixed64"@,
        "table_with_length"@,
        "copyable_any"@,
        "simple_map"@,
        "bn254_algebra"@,
        "crypto_algebra"@,
        "aptos_hash"@,
        // The framework.
        "guid"@,
        "system_addresses"@,
        "chain_id"@,
        "timestamp"@,
        "event"@,
        "create_signer"@,
        "account"@,
        "aggregator"@,
        "aggregator_factory"@,
        "optional_aggregator"@,
        "transaction_context"@,
        "randomness"@,
        "object"@,
        "aggregator_v2"@,
        "function_info"@,
        "fungible_asset"@,
        "dispatchable_fungible_asset"@,
        "primary_fungible_store"@,
        "coin"@,
        "aptos_coin"@,
        "aptos_account"@,
        "chain_status"@,
        "staking_config"@,
        "stake"@,
        "transaction_fee"@,
        "transaction_validation"@,
        "reconfiguration_state"@,
        "state_storage"@,
        "storage_gas"@,
        "reconfiguration"@,
        "config_buffer"@,
        "randomness_api_v0_config"@,
        "randomness_config"@,
        "randomness_config_seqnum"@,
        "keyless_account"@,
        "consensus_config"@,
        "execution_config"@,
        "validator_consensus_info"@,
        "dkg"@,
        "gas_schedule"@,
        "util"@,
        "gas_schedule"@,
        "jwk_consensus_config"@,
        "jwks"@,
        "reconfiguration_with_dkg"@,
        "block"@,
        "code"@,
    ]
}

/// The name of the module whose presence shows that the map is loaded.
pub open spec fn marker_module_name() -> Seq<char> {
    "transaction_validation"@
}

/// The key of the framework module `name`.
pub open spec fn framework_key(name: Seq<char>) -> ModuleKey {
    ModuleKey { address: AccountAddress::spec_one(), name }
}

/// The names that a list of strings holds, in the same order.
pub open spec fn names_of(names: Seq<&'static str>) -> Seq<Seq<char>> {
    names.map_values(|name: &'static str| name@)
}

/// The names of the framework's modules, in the order in which they are loaded.
pub fn ordered_module_names() -> (names: Vec<&'static str>)
    ensures
        names_of(names@) == framework_module_names(),
{
    let names = vec![
        // The standard library.
        "vector",
        "signer",
        "error",
        "hash",
        "features",
        "bcs",
        "option",
        "string",
        "fixed_point32",
        // The extended standard library.
        "type_info",
        "ed25519",
        "from_bcs",
        "multi_ed25519",
        "table",
        "bls12381",
        "math64",
        "fixed_point64",
        "math128",
        "math_fixed64",
        "table_with_length",
        "copyable_any",
        "simple_map",
        "bn254_algebra",
        "crypto_algebra",
        "aptos_hash",
        // The framework.
        "guid",
        "system_addresses",
        "chain_id",
        "timestamp",
        "event",
        "create_signer",
        "account",
        "aggregator",
        "aggregator_factory",
        "optional_aggregator",
        "transaction_context",
        "randomness",
        "object",
        "aggregator_v2",
        "function_info",
        "fungible_asset",
        "dispatchable_fungible_asset",
        "primary_fungible_store",
        "coin",
        "aptos_coin",
        "aptos_account",
        "chain_status",
        "staking_config",
        "stake",
        "transaction_fee",
        "transaction_validation",
        "reconfiguration_state",
        "state_storage",
        "storage_gas",
        "reconfiguration",
        "config_buffer",
        "randomness_api_v0_config",
        "randomness_config",
        "randomness_config_seqnum",
        "keyless_account",
        "consensus_config",
        "execution_config",
        "validator_consensus_info",
        "dkg",
        "gas_schedule",
        "util",
        "gas_schedule",
        "jwk_consensus_config",
        "jwks",
        "reconfiguration_with_dkg",
        "block",
        "code",
    ];
    assert(names_of(names@) =~= framework_module_names());
    names
}

/// What a `Preloaded` stands for.
pub struct PreloadedView<P, M> {
    pub state_value: Option<StateValueView<P>>,
    pub module: Option<M>,
}

impl<P, M> PreloadedView<P, M> {
    /// The entry to store: there is one if both the state value and the
    /// verified module were found.
    pub open spec fn entry(self) -> Option<EntryView<P, M>> {
        match (self.state_value, self.module) {
            (Some(value), Some(module)) => Some(EntryView { value, module: Some(module) }),
            _ => None,
        }
    }
}

/// What was found for one framework module: what state holds under its key,
/// parsed, and the verified module that module storage gave for it. Either
/// may be absent.
pub struct Preloaded<P, M> {
    pub state_value: Option<ModuleStateValue<P>>,
    pub module: Option<Arc<M>>,
}

impl<P, M> View for Preloaded<P, M> {
    type V = PreloadedView<P, M>;

    open spec fn view(&self) -> PreloadedView<P, M> {
        PreloadedView {
            state_value: match self.state_value {
                Some(value) => Some(value@),
                None => None,
            },
            module: match self.module {
                Some(module) => Some(*module),
                None => None,
            },
        }
    }
}

/// What a list of `Preloaded` stands for, in the same order.
pub open spec fn preloaded_of<P, M>(found: Seq<Preloaded<P, M>>) -> Seq<PreloadedView<P, M>> {
    found.map_values(|one: Preloaded<P, M>| one@)
}

/// The map that holds the first `n` of `names`, where `found[i]` is what was
/// found for `names[i]`: a module is in the map if both its state value and
/// its verified module were found; one for which either is absent, or for
/// which `found` has no item, is left out. Where a name occurs twice, the
/// later one counts.
pub open spec fn preload<P, M>(
    names: Seq<Seq<char>>,
    found: Seq<PreloadedView<P, M>>,
    n: nat,
) -> Map<ModuleKey, EntryView<P, M>>
    decreases n,
{
    if n == 0 {
        Map::empty()
    } else {
        let i = n - 1;
        let before = preload(names, found, i as nat);
        if i < found.len() && found[i].entry() is Some {
            before.insert(framework_key(names[i]), found[i].entry()->0)
        } else {
            before
        }
    }
}

/// Whether a map of framework modules counts as loaded: it is there and holds
/// the marker module.
pub open spec fn is_loaded<P, M>(modules: Option<Map<ModuleKey, EntryView<P, M>>>) -> bool {
    match modules {
        Some(modules) => modules.contains_key(framework_key(marker_module_name())),
        None => false,
    }
}

/// The framework's modules, loaded ahead of use.
#[verifier::reject_recursive_types(P)]
#[verifier::reject_recursive_types(M)]
pub struct FrameworkPreloadCache<P, M> {
    modules: Option<ModuleMap<P, M>>,
}

impl<P, M> View for FrameworkPreloadCache<P, M> {
    type V = Option<Map<ModuleKey, EntryView<P, M>>>;

    closed spec fn view(&self) -> Option<Map<ModuleKey, EntryView<P, M>>> {
        match self.modules {
            Some(modules) => Some(modules@),
            None => None,
        }
    }
}

impl<P, M> FrameworkPreloadCache<P, M> {
    /// The invariant of the representation. Every cache that this module hands
    /// out is well formed, and every function keeps it so.
    pub closed spec fn well_formed(&self) -> bool {
        match self.modules {
            Some(modules) => modules.well_formed(),
            None => true,
        }
    }

    /// A cache into which nothing was loaded yet.
    pub fn empty() -> (cache: Self)
        ensures
            cache.well_formed(),
            cache@ is None,
    {
        FrameworkPreloadCache { modules: None }
    }

    /// Whether the cache is loaded: whether it holds the marker module.
    pub fn is_loaded(&self) -> (loaded: bool)
        requires
            self.well_formed(),
        ensures
            loaded == is_loaded(self@),
    {
        match &self.modules {
            Some(modules) => {
                let marker = StateKey::module(&AccountAddress::one(), "transaction_validation");
                modules.get(&marker).is_some()
            },
            None => false,
        }
    }

    /// The entry stored under `key`, if the cache was loaded and holds one.
    pub fn get_cached(&self, key: &StateKey) -> (found: Option<Arc<ModuleStorageEntry<P, M>>>)
        requires
            self.well_formed(),
        ensures
            match found {
                Some(entry) => self@ is Some && self@->0.contains_key(key@) && self@->0[key@] == (
                *entry)@,
                None => self@ is None || !self@->0.contains_key(key@),
            },
    {
        match &self.modules {
            Some(modules) => modules.get(key),
            None => None,
        }
    }
}

/// Every entry of a map of framework modules is verified and stored under the
/// key of one of the names.
pub proof fn lemma_preload_holds_verified_modules<P, M>(
    names: Seq<Seq<char>>,
    found: Seq<PreloadedView<P, M>>,
    n: nat,
    key: ModuleKey,
)
    requires
        n <= names.len(),
        preload(names, found, n).contains_key(key),
    ensures
        preload(names, found, n)[key].is_verified(),
        exists|i: int| 0 <= i < n && key == framework_key(#[trigger] names[i]),
    decreases n,
{
    if n > 0 {
        let i = n - 1;
        if i < found.len() && found[i].entry() is Some && key == framework_key(names[i]) {
        } else {
            lemma_preload_holds_verified_modules(names, found, i as nat, key);
        }
    }
}

/// Every module for which both the state value and the verified module were
/// found is in the map of framework modules, verified.
pub proof fn lemma_preload_holds_every_module_found<P, M>(
    names: Seq<Seq<char>>,
    found: Seq<PreloadedView<P, M>>,
    n: nat,
    i: int,
)
    requires
        0 <= i < n <= names.len(),
        i < found.len(),
        found[i].entry() is Some,
    ensures
        preload(names, found, n).contains_key(framework_key(names[i])),
        preload(names, found, n)[framework_key(names[i])].is_verified(),
    decreases n,
{
    if i < n - 1 {
        lemma_preload_holds_every_module_found(names, found, (n - 1) as nat, i);
    }
    lemma_preload_holds_verified_modules(names, found, n, framework_key(names[i]));
}

/// A map of framework modules that was built from a state that holds the
/// marker module counts as loaded, so that it is not built again.
pub proof fn lemma_loaded_once_marker_is_found<P, M>(found: Seq<PreloadedView<P, M>>, i: int)
    requires
        0 <= i < framework_module_names().len(),
        framework_module_names()[i] == marker_module_name(),
        i < found.len(),
        found[i].entry() is Some,
    ensures
        is_loaded(Some(preload(framework_module_names(), found, framework_module_names().len()))),
{
    lemma_preload_holds_every_module_found(
        framework_module_names(),
        found,
        framework_module_names().len(),
        i,
    );
}

/// The marker module is one of the framework's modules.
pub proof fn lemma_marker_is_listed()
    ensures
        framework_module_names().len() == 72,
        framework_module_names()[50] == marker_module_name(),
{
}

/// The items of `items`, last first.
fn reversed<P, M>(items: Vec<Preloaded<P, M>>) -> (backwards: Vec<Preloaded<P, M>>)
    ensures
        backwards@.len() == items@.len(),
        forall|j: int| 0 <= j < items@.len() ==> backwards@[j] == items@[items@.len() - 1 - j],
{
    let ghost all = items@;
    let mut items = items;
    let mut backwards: Vec<Preloaded<P, M>> = Vec::new();
    while items.len() > 0
        invariant
            items@.len() + backwards@.len() == all.len(),
            forall|j: int| 0 <= j < items@.len() ==> items@[j] == all[j],
            forall|j: int| 0 <= j < backwards@.len() ==> backwards@[j] == all[all.len() - 1 - j],
        decreases items.len(),
    {
        match items.pop() {
            Some(one) => {
                backwards.push(one);
            },
            None => {},
        }
    }
    backwards
}

/// Loads the framework's modules into `cache`, unless it is loaded already.
///
/// `found` holds, for each of `ordered_module_names()` in that order, what
/// was found for the module of that name at address `0x1`. A cache that holds
/// the marker module is left as it is. Otherwise a new map is built from
/// `found` and put in place of the old one as a whole.
pub fn maybe_initialize_module_cache<P, M>(
    cache: &mut FrameworkPreloadCache<P, M>,
    found: Vec<Preloaded<P, M>>,
)
    requires
        old(cache).well_formed(),
    ensures
        final(cache).well_formed(),
        final(cache)@ == if is_loaded(old(cache)@) {
            old(cache)@
        } else {
            Some(
                preload(
                    framework_module_names(),
                    preloaded_of(found@),
                    framework_module_names().len(),
                ),
            )
        },
{
    if cache.is_loaded() {
        return ;
    }
    let ghost items = found@;
    let ghost all = preloaded_of(found@);
    let mut framework: ModuleMap<P, M> = ModuleMap::new();
    let names = ordered_module_names();
    let address = AccountAddress::one();
    let mut rest = reversed(found);
    let mut i: usize = 0;
    while i < names.len()
        invariant
            framework.well_formed(),
            names_of(names@) == framework_module_names(),
            address@ == AccountAddress::spec_one(),
            all == preloaded_of(items),
            i <= names.len(),
            rest@.len() == if i <= items.len() {
                items.len() - i
            } else {
                0
            },
            forall|j: int| 0 <= j < rest@.len() ==> rest@[j] == items[items.len() - 1 - j],
            framework@ == preload(framework_module_names(), all, i as nat),
        decreases names.len() - i,
    {
        assert(names_of(names@)[i as int] == names@[i as int]@);
        match rest.pop() {
            Some(one) => {
                assert(one == items[i as int]);
                assert(all[i as int] == one@);
                let Preloaded { state_value, module } = one;
                match (state_value, module) {
                    (Some(value), Some(module)) => {
                        let entry = ModuleStorageEntry::from_state_value_and_verified_module(
                            value,
                            module,
                        );
                        framework.insert(StateKey::module(&address, names[i]), Arc::new(entry));
                    },
                    _ => {},
                }
            },
            None => {},
        }
        i = i + 1;
    }
    cache.modules = Some(framework);
}

} // verus!
