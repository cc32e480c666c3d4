//! The environment: the configuration under which modules are verified and
//! transactions run.
//!
//! An environment is made once per block from what the state at the start of
//! the block holds. Reading that state is the caller's part, and so is
//! deriving from it the gas parameters, the timed features, the configuration
//! of the virtual machine and what the machine runs with, such as its native
//! functions. Decided here is which values are used where state holds none,
//! how the process overrides what state says, and which switches are on.

use crate::features::{disabled_in, enabled_in, is_enabled_in, Features};
use crate::module_entry::share;
use std::sync::Arc;
use vstd::prelude::*;

verus! {

/// The chain that a node runs on: main net, test net, a test chain.
#[derive(Clone, Copy, Debug, PartialEq, Eq)]
pub struct ChainId {
    id: u8,
}

impl View for ChainId {
    type V = u8;

    closed spec fn view(&self) -> u8 {
        self.id
    }
}

impl ChainId {
    /// The chain id that stands for a test chain.
    pub open spec fn spec_test() -> u8 {
        4
    }

    pub fn new(id: u8) -> (chain_id: Self)
        ensures
            chain_id@ == id,
    {
        ChainId { id }
    }

    /// The id of a test chain. It is what is taken where state names no chain.
    pub fn test() -> (chain_id: Self)
        ensures
            chain_id@ == Self::spec_test(),
    {
        ChainId { id: 4 }
    }

    pub fn id(&self) -> (id: u8)
        ensures
            id == self@,
    {
        self.id
    }
}

/// The features that depend on the time of the last reconfiguration rather
/// than on a vote: one flag each, in the order of their numbers.
#[derive(Debug, PartialEq, Eq)]
pub struct TimedFeatures {
    flags: Vec<bool>,
}

impl View for TimedFeatures {
    type V = Seq<bool>;

    closed spec fn view(&self) -> Seq<bool> {
        self.flags@
    }
}

impl TimedFeatures {
    pub fn new(flags: Vec<bool>) -> (timed: Self)
        ensures
            timed@ == flags@,
    {
        TimedFeatures { flags }
    }

    pub fn as_flags(&self) -> (flags: &Vec<bool>)
        ensures
            flags@ == self@,
    {
        &self.flags
    }

    /// Whether the timed feature number `flag` is on. One beyond the end of
    /// the list is off.
    pub fn is_enabled(&self, flag: usize) -> (enabled: bool)
        ensures
            enabled == (flag < self@.len() && self@[flag as int]),
    {
        flag < self.flags.len() && self.flags[flag]
    }
}

/// What a `VmConfig` stands for.
pub struct VmConfigView {
    pub delayed_field_optimization_enabled: bool,
    pub settings: Seq<u8>,
}

/// How the virtual machine is to behave. One setting is looked at here:
/// whether delayed fields are optimised. The others are carried in their
/// canonical byte form: they take part in the fingerprint of an environment
/// and are not looked at otherwise.
#[derive(Debug, PartialEq, Eq)]
pub struct VmConfig {
    delayed_field_optimization_enabled: bool,
    settings: Vec<u8>,
}

impl View for VmConfig {
    type V = VmConfigView;

    closed spec fn view(&self) -> VmConfigView {
        VmConfigView {
            delayed_field_optimization_enabled: self.delayed_field_optimization_enabled,
            settings: self.settings@,
        }
    }
}

impl VmConfig {
    pub fn new(delayed_field_optimization_enabled: bool, settings: Vec<u8>) -> (config: Self)
        ensures
            config@ == (VmConfigView { delayed_field_optimization_enabled, settings: settings@ }),
    {
        VmConfig { delayed_field_optimization_enabled, settings }
    }

    pub fn delayed_field_optimization_enabled(&self) -> (enabled: bool)
        ensures
            enabled == self@.delayed_field_optimization_enabled,
    {
        self.delayed_field_optimization_enabled
    }

    pub fn settings(&self) -> (settings: &Vec<u8>)
        ensures
            settings@ == self@.settings,
    {
        &self.settings
    }
}

/// The numbers of the two feature flags that decide something here.
#[derive(Clone, Copy, Debug, PartialEq, Eq)]
pub struct FeatureGates {
    /// The flag of the second version of the module loader.
    pub loader_v2: u32,
    /// The flag that allows delayed fields to be optimised.
    pub delayed_fields: u32,
}

/// What a `BuildOptions` stands for.
pub struct BuildOptionsView {
    pub baseline_features: Seq<u8>,
    pub gates: FeatureGates,
    pub use_loader_v1: bool,
}

/// What is the same for every environment that a process makes.
pub struct BuildOptions {
    /// The features that are taken where state holds no feature set.
    pub baseline_features: Features,
    pub gates: FeatureGates,
    /// Whether this process runs the first version of the module loader. The
    /// loader flag of every environment follows this switch, whatever state
    /// says.
    pub use_loader_v1: bool,
}

impl View for BuildOptions {
    type V = BuildOptionsView;

    open spec fn view(&self) -> BuildOptionsView {
        BuildOptionsView {
            baseline_features: self.baseline_features@,
            gates: self.gates,
            use_loader_v1: self.use_loader_v1,
        }
    }
}

/// What an `OnChainConfig` stands for.
pub struct OnChainConfigView {
    pub features: Option<Seq<u8>>,
    pub chain_id: Option<u8>,
}

/// What state holds of the configuration that an environment is made from.
/// `None` stands for what state does not hold.
pub struct OnChainConfig {
    pub features: Option<Features>,
    pub chain_id: Option<ChainId>,
}

impl View for OnChainConfig {
    type V = OnChainConfigView;

    open spec fn view(&self) -> OnChainConfigView {
        OnChainConfigView {
            features: match self.features {
                Some(features) => Some(features@),
                None => None,
            },
            chain_id: match self.chain_id {
                Some(chain_id) => Some(chain_id@),
                None => None,
            },
        }
    }
}

/// The features of an environment: those that state holds, or the baseline
/// where it holds none, with the loader flag set as the process runs: off
/// with the first version of the loader, on with the second.
pub open spec fn resolved_features(fetched: Option<Seq<u8>>, options: BuildOptionsView) -> Seq<u8> {
    let features = match fetched {
        Some(features) => features,
        None => options.baseline_features,
    };
    if options.use_loader_v1 {
        disabled_in(features, options.gates.loader_v2 as u64)
    } else {
        enabled_in(features, options.gates.loader_v2 as u64)
    }
}

/// The chain of an environment: the one that state names, or the test chain
/// where it names none.
pub open spec fn resolved_chain_id(fetched: Option<u8>) -> u8 {
    match fetched {
        Some(id) => id,
        None => ChainId::spec_test(),
    }
}

/// The time of the last reconfiguration: the one that state holds, or zero
/// where it holds none.
pub open spec fn resolved_reconfiguration_time(fetched: Option<u64>) -> u64 {
    match fetched {
        Some(time) => time,
        None => 0,
    }
}

/// The features of an environment that is made from `fetched`.
pub fn resolve_features(fetched: Option<Features>, options: BuildOptions) -> (features: Features)
    ensures
        features@ == resolved_features(
            match fetched {
                Some(features) => Some(features@),
                None => None,
            },
            options@,
        ),
        features.has(options.gates.loader_v2 as u64) == !options.use_loader_v1,
        forall|other: u64|
            other != options.gates.loader_v2 ==> #[trigger] features.has(other) == is_enabled_in(
                match fetched {
                    Some(features) => features@,
                    None => options.baseline_features@,
                },
                other,
            ),
{
    let BuildOptions { baseline_features, gates, use_loader_v1 } = options;
    let mut features = match fetched {
        Some(features) => features,
        None => baseline_features,
    };
    if use_loader_v1 {
        features.disable(gates.loader_v2 as u64);
    } else {
        features.enable(gates.loader_v2 as u64);
    }
    features
}

/// The chain of an environment that is made from `fetched`.
pub fn resolve_chain_id(fetched: Option<ChainId>) -> (chain_id: ChainId)
    ensures
        chain_id@ == resolved_chain_id(
            match fetched {
                Some(chain_id) => Some(chain_id@),
                None => None,
            },
        ),
{
    match fetched {
        Some(chain_id) => chain_id,
        None => ChainId::test(),
    }
}

/// The time of the last reconfiguration to derive the timed features from.
pub fn resolve_reconfiguration_time(fetched: Option<u64>) -> (time: u64)
    ensures
        time == resolved_reconfiguration_time(fetched),
{
    match fetched {
        Some(time) => time,
        None => 0,
    }
}

/// Where the gas parameters of native functions come from.
#[derive(Clone, Copy, Debug, PartialEq, Eq)]
pub enum NativeGasSource {
    /// From the gas schedule on chain.
    OnChain,
    /// There is no usable gas schedule: every parameter is zero, and type
    /// sizes are limited by the defaults.
    Zeroed,
}

/// Where the gas parameters of native functions come from, given what
/// deriving the gas parameters from state gave. A failure there does not stop
/// an environment from being made.
pub fn native_gas_source<G>(gas_params: &Result<G, String>) -> (source: NativeGasSource)
    ensures
        source == (match *gas_params {
            Ok(_) => NativeGasSource::OnChain,
            Err(_) => NativeGasSource::Zeroed,
        }),
{
    match gas_params {
        Ok(_) => NativeGasSource::OnChain,
        Err(_) => NativeGasSource::Zeroed,
    }
}

/// What was derived, outside this crate, from the resolved features, chain
/// and reconfiguration time and from state. `G` and `S` are the types of the
/// gas parameters and of the storage gas parameters; where either could not
/// be derived, the reason is kept in its place. `R` is the type of what the
/// virtual machine runs with besides its configuration, such as the table of
/// native functions; it is carried along and not looked at.
pub struct DerivedConfig<G, S, R> {
    pub timed_features: TimedFeatures,
    pub gas_feature_version: u64,
    pub gas_params: Result<G, String>,
    pub storage_gas_params: Result<S, String>,
    pub vm_config: VmConfig,
    pub runtime: R,
}

/// What an `Environment` stands for.
pub struct EnvironmentView<G, S, R> {
    pub chain_id: u8,
    pub features: Seq<u8>,
    pub timed_features: Seq<bool>,
    pub gas_feature_version: u64,
    pub gas_params: Result<G, String>,
    pub storage_gas_params: Result<S, String>,
    pub vm_config: VmConfigView,
    pub runtime: R,
    pub gates: FeatureGates,
    pub inject_create_signer_for_gov_sim: bool,
}

impl<G, S, R> EnvironmentView<G, S, R> {
    /// Whether the optimisation of delayed fields is switched on.
    pub open spec fn delayed_field_optimization_enabled(self) -> bool {
        self.vm_config.delayed_field_optimization_enabled
    }

    /// Whether the feature that allows delayed fields to be optimised is on.
    pub open spec fn delayed_fields_allowed(self) -> bool {
        is_enabled_in(self.features, self.gates.delayed_fields as u64)
    }

    /// The environment with the optimisation of delayed fields switched on
    /// if the feature allows it, and as it was if not.
    pub open spec fn try_enable_delayed_field_optimization(self) -> Self {
        EnvironmentView {
            chain_id: self.chain_id,
            features: self.features,
            timed_features: self.timed_features,
            gas_feature_version: self.gas_feature_version,
            gas_params: self.gas_params,
            storage_gas_params: self.storage_gas_params,
            vm_config: VmConfigView {
                delayed_field_optimization_enabled: self.delayed_field_optimization_enabled()
                    || self.delayed_fields_allowed(),
                settings: self.vm_config.settings,
            },
            runtime: self.runtime,
            gates: self.gates,
            inject_create_signer_for_gov_sim: self.inject_create_signer_for_gov_sim,
        }
    }
}

/// The environment that is made from what state holds (`on_chain`), the
/// options of the process and what was derived outside.
pub open spec fn built<G, S, R>(
    on_chain: OnChainConfigView,
    options: BuildOptionsView,
    derived: DerivedConfig<G, S, R>,
    inject_create_signer_for_gov_sim: bool,
) -> EnvironmentView<G, S, R> {
    EnvironmentView {
        chain_id: resolved_chain_id(on_chain.chain_id),
        features: resolved_features(on_chain.features, options),
        timed_features: derived.timed_features@,
        gas_feature_version: derived.gas_feature_version,
        gas_params: derived.gas_params,
        storage_gas_params: derived.storage_gas_params,
        vm_config: derived.vm_config@,
        runtime: derived.runtime,
        gates: options.gates,
        inject_create_signer_for_gov_sim,
    }
}

/// The configuration under which modules are verified and transactions run.
pub struct Environment<G, S, R> {
    chain_id: ChainId,
    features: Features,
    timed_features: TimedFeatures,
    gas_feature_version: u64,
    gas_params: Result<G, String>,
    storage_gas_params: Result<S, String>,
    vm_config: VmConfig,
    runtime: R,
    gates: FeatureGates,
    inject_create_signer_for_gov_sim: bool,
}

impl<G, S, R> View for Environment<G, S, R> {
    type V = EnvironmentView<G, S, R>;

    closed spec fn view(&self) -> EnvironmentView<G, S, R> {
        EnvironmentView {
            chain_id: self.chain_id@,
            features: self.features@,
            timed_features: self.timed_features@,
            gas_feature_version: self.gas_feature_version,
            gas_params: self.gas_params,
            storage_gas_params: self.storage_gas_params,
            vm_config: self.vm_config@,
            runtime: self.runtime,
            gates: self.gates,
            inject_create_signer_for_gov_sim: self.inject_create_signer_for_gov_sim,
        }
    }
}

impl<G, S, R> Environment<G, S, R> {
    /// Makes the environment of a block. Where state names no chain, the
    /// environment is one of a test chain.
    pub fn new(
        on_chain: OnChainConfig,
        options: BuildOptions,
        derived: DerivedConfig<G, S, R>,
        inject_create_signer_for_gov_sim: bool,
    ) -> (environment: Self)
        ensures
            environment@ == built(on_chain@, options@, derived, inject_create_signer_for_gov_sim),
            on_chain.chain_id is None ==> environment@.chain_id == ChainId::spec_test(),
    {
        let OnChainConfig { features, chain_id } = on_chain;
        let gates = options.gates;
        let features = resolve_features(features, options);
        let chain_id = resolve_chain_id(chain_id);
        let DerivedConfig {
            timed_features,
            gas_feature_version,
            gas_params,
            storage_gas_params,
            vm_config,
            runtime,
        } = derived;
        Environment {
            chain_id,
            features,
            timed_features,
            gas_feature_version,
            gas_params,
            storage_gas_params,
            vm_config,
            runtime,
            gates,
            inject_create_signer_for_gov_sim,
        }
    }

    pub fn chain_id(&self) -> (chain_id: ChainId)
        ensures
            chain_id@ == self@.chain_id,
    {
        self.chain_id
    }

    pub fn features(&self) -> (features: &Features)
        ensures
            features@ == self@.features,
    {
        &self.features
    }

    pub fn timed_features(&self) -> (timed_features: &TimedFeatures)
        ensures
            timed_features@ == self@.timed_features,
    {
        &self.timed_features
    }

    pub fn vm_config(&self) -> (vm_config: &VmConfig)
        ensures
            vm_config@ == self@.vm_config,
    {
        &self.vm_config
    }

    pub fn gas_feature_version(&self) -> (version: u64)
        ensures
            version == self@.gas_feature_version,
    {
        self.gas_feature_version
    }

    /// The gas parameters, or why state gave none.
    pub fn gas_params(&self) -> (gas_params: &Result<G, String>)
        ensures
            *gas_params == self@.gas_params,
    {
        &self.gas_params
    }

    /// The storage gas parameters, or why state gave none.
    pub fn storage_gas_params(&self) -> (storage_gas_params: &Result<S, String>)
        ensures
            *storage_gas_params == self@.storage_gas_params,
    {
        &self.storage_gas_params
    }

    /// What the virtual machine runs with besides its configuration.
    pub fn runtime(&self) -> (runtime: &R)
        ensures
            *runtime == self@.runtime,
    {
        &self.runtime
    }

    /// Whether the native function that creates a signer is injected.
    pub fn inject_create_signer_for_gov_sim(&self) -> (inject: bool)
        ensures
            inject == self@.inject_create_signer_for_gov_sim,
    {
        self.inject_create_signer_for_gov_sim
    }

    /// Switches the optimisation of delayed fields on if the feature that
    /// allows it is on, and changes nothing if it is not.
    pub fn try_enable_delayed_field_optimization(self) -> (environment: Self)
        ensures
            environment@ == self@.try_enable_delayed_field_optimization(),
    {
        let mut environment = self;
        if environment.features.is_enabled(environment.gates.delayed_fields as u64) {
            environment.vm_config.delayed_field_optimization_enabled = true;
        }
        environment
    }
}

/// Trying to switch the optimisation of delayed fields on leaves it off where
/// it was off and the feature is off, switches it on where the feature is on,
/// and does nothing more when tried again.
pub proof fn lemma_try_enable_delayed_field_optimization<G, S, R>(
    environment: EnvironmentView<G, S, R>,
)
    ensures
        ({
            let tried = environment.try_enable_delayed_field_optimization();
            &&& !environment.delayed_field_optimization_enabled()
                && !environment.delayed_fields_allowed()
                ==> !tried.delayed_field_optimization_enabled()
            &&& environment.delayed_fields_allowed() ==> tried.delayed_field_optimization_enabled()
            &&& tried.try_enable_delayed_field_optimization() == tried
        }),
{
}

/// The environment for the block executor is the environment of regular
/// execution but for one switch: the optimisation of delayed fields, which
/// is on if it was on or the feature allows it. In particular the native
/// function that creates a signer is not injected.
pub proof fn lemma_block_executor_environment<G, S, R>(
    on_chain: OnChainConfigView,
    options: BuildOptionsView,
    derived: DerivedConfig<G, S, R>,
)
    ensures
        ({
            let regular = built(on_chain, options, derived, false);
            let executor = regular.try_enable_delayed_field_optimization();
            &&& executor.chain_id == regular.chain_id
            &&& executor.features == regular.features
            &&& executor.timed_features == regular.timed_features
            &&& executor.gas_feature_version == regular.gas_feature_version
            &&& executor.gas_params == regular.gas_params
            &&& executor.storage_gas_params == regular.storage_gas_params
            &&& executor.runtime == regular.runtime
            &&& executor.vm_config.settings == regular.vm_config.settings
            &&& !executor.inject_create_signer_for_gov_sim
            &&& executor.delayed_field_optimization_enabled() == (
            derived.vm_config@.delayed_field_optimization_enabled
                || regular.delayed_fields_allowed())
        }),
{
}

/// An environment that is shared by everything that runs in one block. To
/// copy it is to share it.
pub struct AptosEnvironment<G, S, R> {
    environment: Arc<Environment<G, S, R>>,
}

impl<G, S, R> View for AptosEnvironment<G, S, R> {
    type V = EnvironmentView<G, S, R>;

    closed spec fn view(&self) -> EnvironmentView<G, S, R> {
        (*self.environment)@
    }
}

impl<G, S, R> Clone for AptosEnvironment<G, S, R> {
    fn clone(&self) -> (other: Self)
        ensures
            other@ == self@,
    {
        AptosEnvironment { environment: share(&self.environment) }
    }
}

impl<G, S, R> AptosEnvironment<G, S, R> {
    /// The environment of a block whose state holds `on_chain`.
    pub fn new(
        on_chain: OnChainConfig,
        options: BuildOptions,
        derived: DerivedConfig<G, S, R>,
    ) -> (environment: Self)
        ensures
            environment@ == built(on_chain@, options@, derived, false),
            on_chain.chain_id is None ==> environment@.chain_id == ChainId::spec_test(),
    {
        let environment = Environment::new(on_chain, options, derived, false);
        AptosEnvironment { environment: Arc::new(environment) }
    }

    /// The same, for the simulation of a governance proposal: the native
    /// function that creates a signer is to be injected. Not for regular
    /// execution.
    pub fn new_with_injected_create_signer_for_gov_sim(
        on_chain: OnChainConfig,
        options: BuildOptions,
        derived: DerivedConfig<G, S, R>,
    ) -> (environment: Self)
        ensures
            environment@ == built(on_chain@, options@, derived, true),
            on_chain.chain_id is None ==> environment@.chain_id == ChainId::spec_test(),
    {
        let environment = Environment::new(on_chain, options, derived, true);
        AptosEnvironment { environment: Arc::new(environment) }
    }

    /// The environment for the block executor: the environment of regular
    /// execution, with the optimisation of delayed fields switched on,
    /// provided that the feature allows it. Nothing else differs: the native
    /// function that creates a signer is not injected.
    pub fn new_with_delayed_field_optimization_enabled(
        on_chain: OnChainConfig,
        options: BuildOptions,
        derived: DerivedConfig<G, S, R>,
    ) -> (environment: Self)
        ensures
            environment@ == built(
                on_chain@,
                options@,
                derived,
                false,
            ).try_enable_delayed_field_optimization(),
            !environment@.inject_create_signer_for_gov_sim,
            on_chain.chain_id is None ==> environment@.chain_id == ChainId::spec_test(),
    {
        let environment = Environment::new(
            on_chain,
            options,
            derived,
            false,
        ).try_enable_delayed_field_optimization();
        AptosEnvironment { environment: Arc::new(environment) }
    }

    pub fn chain_id(&self) -> (chain_id: ChainId)
        ensures
            chain_id@ == self@.chain_id,
    {
        self.environment.chain_id()
    }

    pub fn features(&self) -> (features: &Features)
        ensures
            features@ == self@.features,
    {
        self.environment.features()
    }

    pub fn timed_features(&self) -> (timed_features: &TimedFeatures)
        ensures
            timed_features@ == self@.timed_features,
    {
        self.environment.timed_features()
    }

    pub fn vm_config(&self) -> (vm_config: &VmConfig)
        ensures
            vm_config@ == self@.vm_config,
    {
        self.environment.vm_config()
    }

    pub fn gas_feature_version(&self) -> (version: u64)
        ensures
            version == self@.gas_feature_version,
    {
        self.environment.gas_feature_version()
    }

    /// The gas parameters, or why state gave none.
    pub fn gas_params(&self) -> (gas_params: &Result<G, String>)
        ensures
            *gas_params == self@.gas_params,
    {
        self.environment.gas_params()
    }

    /// The storage gas parameters, or why state gave none.
    pub fn storage_gas_params(&self) -> (storage_gas_params: &Result<S, String>)
        ensures
            *storage_gas_params == self@.storage_gas_params,
    {
        self.environment.storage_gas_params()
    }

    /// What the virtual machine runs with besides its configuration.
    pub fn runtime(&self) -> (runtime: &R)
        ensures
            *runtime == self@.runtime,
    {
        self.environment.runtime()
    }

    /// Whether the native function that creates a signer is injected.
    pub fn inject_create_signer_for_gov_sim(&self) -> (inject: bool)
        ensures
            inject == self@.inject_create_signer_for_gov_sim,
    {
        self.environment.inject_create_signer_for_gov_sim()
    }
}

} // verus!
