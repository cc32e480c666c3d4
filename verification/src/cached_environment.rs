//! The environment that is kept from one block to the next.
//!
//! Making an environment is costly for what hangs on it outside this crate,
//! so the one of the previous block is kept, with its fingerprint, and handed
//! out again for as long as the configuration does not change.

use crate::environment::{
    built, AptosEnvironment, BuildOptions, DerivedConfig, EnvironmentView, OnChainConfig,
};
use crate::fingerprint::{
    fingerprint, has_fingerprint, lemma_fingerprint_tells_configurations_apart, EnvironmentID,
    FingerprintError,
};
use vstd::prelude::*;

verus! {

/// What a `CachedAptosEnvironment` stands for.
pub struct CachedView<G, S, R> {
    pub id: Seq<u8>,
    pub env: EnvironmentView<G, S, R>,
}

/// An environment and its fingerprint.
pub struct CachedAptosEnvironment<G, S, R> {
    id: EnvironmentID,
    env: AptosEnvironment<G, S, R>,
}

impl<G, S, R> View for CachedAptosEnvironment<G, S, R> {
    type V = CachedView<G, S, R>;

    closed spec fn view(&self) -> CachedView<G, S, R> {
        CachedView { id: self.id@, env: self.env@ }
    }
}

impl<G, S, R> CachedView<G, S, R> {
    /// Whether the fingerprint that is kept is that of the environment.
    pub open spec fn well_formed(self) -> bool {
        has_fingerprint(self.env) && self.id == fingerprint(self.env)
    }
}

/// Whether two environments have the same configuration: the same chain,
/// features, timed features, version of the gas features and configuration of
/// the virtual machine.
pub open spec fn same_configuration<G, S, R>(
    one: EnvironmentView<G, S, R>,
    other: EnvironmentView<G, S, R>,
) -> bool {
    &&& one.chain_id == other.chain_id
    &&& one.features == other.features
    &&& one.timed_features == other.timed_features
    &&& one.gas_feature_version == other.gas_feature_version
    &&& one.vm_config == other.vm_config
}

/// What the slot of the kept environment stands for.
pub open spec fn slot_view<G, S, R>(slot: Option<CachedAptosEnvironment<G, S, R>>) -> Option<
    CachedView<G, S, R>,
> {
    match slot {
        Some(cached) => Some(cached@),
        None => None,
    }
}

/// Whether the environment kept in `slot` can stand in for one with the
/// fingerprint `id`.
pub open spec fn reusable<G, S, R>(slot: Option<CachedView<G, S, R>>, id: Seq<u8>) -> bool {
    match slot {
        Some(cached) => cached.id == id,
        None => false,
    }
}

impl<G, S, R> CachedAptosEnvironment<G, S, R> {
    /// The environment for the block whose state holds `on_chain`, with the
    /// optimisation of delayed fields switched on where the feature allows
    /// it. Meant to be called at block boundaries only.
    ///
    /// `slot` holds the environment that was kept, if any. If it has the
    /// fingerprint of the environment that the arguments describe, it is
    /// handed out and stays. If not, the new environment is handed out and
    /// takes its place. Either way the environment that is handed out has the
    /// configuration that the arguments describe. An environment without a
    /// fingerprint is not handed out, and leaves the slot as it was.
    pub fn fetch_with_delayed_field_optimization_enabled(
        slot: &mut Option<CachedAptosEnvironment<G, S, R>>,
        on_chain: OnChainConfig,
        options: BuildOptions,
        derived: DerivedConfig<G, S, R>,
    ) -> (fetched: Result<AptosEnvironment<G, S, R>, FingerprintError>)
        requires
            slot_view(*old(slot)) matches Some(kept) ==> kept.well_formed(),
        ensures
            slot_view(*final(slot)) matches Some(kept) ==> kept.well_formed(),
            fetched matches Ok(env) ==> same_configuration(
                env@,
                built(on_chain@, options@, derived, false).try_enable_delayed_field_optimization(),
            ),
            ({
                let fresh = built(
                    on_chain@,
                    options@,
                    derived,
                    false,
                ).try_enable_delayed_field_optimization();
                let kept = slot_view(*old(slot));
                match fetched {
                    Err(_) => !has_fingerprint(fresh) && slot_view(*final(slot)) == kept,
                    Ok(env) => has_fingerprint(fresh) && if reusable(kept, fingerprint(fresh)) {
                        env@ == kept->0.env && slot_view(*final(slot)) == kept
                    } else {
                        env@ == fresh && slot_view(*final(slot)) == Some(
                            CachedView { id: fingerprint(fresh), env: fresh },
                        )
                    },
                }
            }),
    {
        let env = AptosEnvironment::new_with_delayed_field_optimization_enabled(
            on_chain,
            options,
            derived,
        );
        let id = match EnvironmentID::new(&env) {
            Ok(id) => id,
            Err(error) => {
                return Err(error);
            },
        };
        match slot {
            Some(cached) => {
                if id.same_as(&cached.id) {
                    proof {
                        lemma_fingerprint_tells_configurations_apart(cached.env@, env@);
                    }
                    return Ok(cached.env.clone());
                }
            },
            None => {},
        }
        *slot = Some(CachedAptosEnvironment { id, env: env.clone() });
        Ok(env)
    }

    /// The fingerprint of the kept environment.
    pub fn id(&self) -> (id: &EnvironmentID)
        ensures
            id@ == self@.id,
    {
        &self.id
    }

    /// The kept environment.
    pub fn env(&self) -> (env: &AptosEnvironment<G, S, R>)
        ensures
            env@ == self@.env,
    {
        &self.env
    }
}

} // verus!
