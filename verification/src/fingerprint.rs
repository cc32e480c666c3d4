//! The fingerprint of an environment.
//!
//! Two environments with the same fingerprint can stand in for each other:
//! what was verified under one holds under the other. The fingerprint is the
//! canonical serialisation of the chain, the features, the timed features,
//! the version of the gas features and the configuration of the virtual
//! machine. Gas parameters are left out: they follow from the rest.

use crate::environment::{
    built, AptosEnvironment, BuildOptionsView, DerivedConfig, EnvironmentView, OnChainConfigView,
    VmConfigView,
};
use vstd::bytes::{lemma_auto_spec_u64_to_from_le_bytes, spec_u64_to_le_bytes};
use vstd::prelude::*;

verus! {

/// `bcs::Error`: why a value could not be serialised. It is carried from the
/// serialiser to where it is told apart from success, and not looked into.
#[verifier::external_type_specification]
#[verifier::external_body]
pub struct ExBcsError(bcs::Error);

/// The longest sequence that can be serialised.
pub open spec fn max_sequence_length() -> nat {
    0x7fff_ffff
}

/// A length, serialised: seven bits per byte, the low ones first; the eighth
/// bit of a byte is set if another byte follows.
pub open spec fn uleb128(n: nat) -> Seq<u8>
    decreases n,
{
    if n < 128 {
        seq![n as u8]
    } else {
        seq![(n % 128 + 128) as u8] + uleb128(n / 128)
    }
}

/// A flag, serialised: one byte, zero or one.
pub open spec fn bool_byte(flag: bool) -> u8 {
    if flag {
        1
    } else {
        0
    }
}

/// A sequence of bytes, serialised: its length, then the bytes.
pub open spec fn serialized_bytes(bytes: Seq<u8>) -> Seq<u8> {
    uleb128(bytes.len()) + bytes
}

/// A sequence of flags, serialised: its length, then a byte for each flag.
pub open spec fn serialized_flags(flags: Seq<bool>) -> Seq<u8> {
    uleb128(flags.len()) + flags.map_values(|flag: bool| bool_byte(flag))
}

/// The configuration of the virtual machine, serialised: the flag for delayed
/// fields, then the other settings.
pub open spec fn serialized_vm_config(vm_config: VmConfigView) -> Seq<u8> {
    seq![bool_byte(vm_config.delayed_field_optimization_enabled)] + serialized_bytes(
        vm_config.settings,
    )
}

/// The canonical serialisation of what tells one environment from another:
/// the chain id, the features, the timed features, the version of the gas
/// features in eight bytes, the low ones first, and the configuration of the
/// virtual machine.
pub open spec fn serialized_config(
    chain_id: u8,
    features: Seq<u8>,
    timed_features: Seq<bool>,
    gas_feature_version: u64,
    vm_config: VmConfigView,
) -> Seq<u8> {
    seq![chain_id] + (serialized_bytes(features) + (serialized_flags(timed_features) + (
    spec_u64_to_le_bytes(gas_feature_version) + serialized_vm_config(vm_config))))
}

/// Whether the parts of a configuration can be serialised: whether none of
/// its sequences is longer than the format allows.
pub open spec fn serializable(
    features: Seq<u8>,
    timed_features: Seq<bool>,
    vm_config: VmConfigView,
) -> bool {
    &&& features.len() <= max_sequence_length()
    &&& timed_features.len() <= max_sequence_length()
    &&& vm_config.settings.len() <= max_sequence_length()
}

/// `bcs::to_bytes`, on the tuple of the chain id, the features, the timed
/// features, the version of the gas features and the pair of the two parts of
/// the configuration of the virtual machine. For such a value the serialiser
/// fails in one case only, a sequence longer than its `MAX_SEQUENCE_LENGTH`,
/// and otherwise writes each part in turn: an integer in little-endian bytes,
/// a flag as one byte, a sequence as its length in ULEB128 and then its items.
#[verifier::external_body]
fn bcs_to_bytes(
    chain_id: u8,
    features: &Vec<u8>,
    timed_features: &Vec<bool>,
    gas_feature_version: u64,
    delayed_field_optimization_enabled: bool,
    settings: &Vec<u8>,
) -> (serialized: Result<Vec<u8>, bcs::Error>)
    ensures
        serialized is Ok <==> serializable(
            features@,
            timed_features@,
            VmConfigView { delayed_field_optimization_enabled, settings: settings@ },
        ),
        serialized matches Ok(bytes) ==> bytes@ == serialized_config(
            chain_id,
            features@,
            timed_features@,
            gas_feature_version,
            VmConfigView { delayed_field_optimization_enabled, settings: settings@ },
        ),
{
    bcs::to_bytes(
        &(
            chain_id,
            features,
            timed_features,
            gas_feature_version,
            (delayed_field_optimization_enabled, settings),
        ),
    )
}

/// The fingerprint of an environment.
pub open spec fn fingerprint<G, S, R>(environment: EnvironmentView<G, S, R>) -> Seq<u8> {
    serialized_config(
        environment.chain_id,
        environment.features,
        environment.timed_features,
        environment.gas_feature_version,
        environment.vm_config,
    )
}

/// Whether an environment has a fingerprint.
pub open spec fn has_fingerprint<G, S, R>(environment: EnvironmentView<G, S, R>) -> bool {
    serializable(environment.features, environment.timed_features, environment.vm_config)
}

/// Why an environment has no fingerprint.
#[derive(Clone, Copy, Debug, PartialEq, Eq)]
pub enum FingerprintError {
    /// The features, the timed features or the settings of the virtual
    /// machine are longer than a serialised sequence can be.
    SequenceTooLong,
}

/// The fingerprint of an environment.
#[derive(Debug, PartialEq, Eq, Hash)]
pub struct EnvironmentID {
    bytes: Vec<u8>,
}

impl View for EnvironmentID {
    type V = Seq<u8>;

    closed spec fn view(&self) -> Seq<u8> {
        self.bytes@
    }
}

impl EnvironmentID {
    /// The fingerprint of `env`.
    pub fn new<G, S, R>(env: &AptosEnvironment<G, S, R>) -> (id: Result<Self, FingerprintError>)
        ensures
            match id {
                Ok(id) => has_fingerprint(env@) && id@ == fingerprint(env@),
                Err(_) => !has_fingerprint(env@),
            },
    {
        let vm_config = env.vm_config();
        let serialized = bcs_to_bytes(
            env.chain_id().id(),
            env.features().as_bytes(),
            env.timed_features().as_flags(),
            env.gas_feature_version(),
            vm_config.delayed_field_optimization_enabled(),
            vm_config.settings(),
        );
        match serialized {
            Ok(bytes) => Ok(EnvironmentID { bytes }),
            Err(_) => Err(FingerprintError::SequenceTooLong),
        }
    }

    /// The bytes of the fingerprint.
    pub fn as_bytes(&self) -> (bytes: &Vec<u8>)
        ensures
            bytes@ == self@,
    {
        &self.bytes
    }

    /// Whether two fingerprints are the same.
    pub fn same_as(&self, other: &EnvironmentID) -> (same: bool)
        ensures
            same == (self@ == other@),
    {
        if self.bytes.len() != other.bytes.len() {
            return false;
        }
        let mut i: usize = 0;
        while i < self.bytes.len()
            invariant
                i <= self.bytes.len(),
                self.bytes.len() == other.bytes.len(),
                forall|j: int| 0 <= j < i ==> self.bytes@[j] == other.bytes@[j],
            decreases self.bytes.len() - i,
        {
            if self.bytes[i] != other.bytes[i] {
                return false;
            }
            i = i + 1;
        }
        assert(self@ =~= other@);
        true
    }
}

/// The fingerprint depends on the chain, the features, the timed features,
/// the version of the gas features and the configuration of the virtual
/// machine, and on nothing else: two environments that agree in these have
/// the same fingerprint, whatever else they were made from.
pub proof fn lemma_fingerprint_depends_on_configuration_only<G, S, R, H, T, Q>(
    one: EnvironmentView<G, S, R>,
    other: EnvironmentView<H, T, Q>,
)
    requires
        one.chain_id == other.chain_id,
        one.features == other.features,
        one.timed_features == other.timed_features,
        one.gas_feature_version == other.gas_feature_version,
        one.vm_config == other.vm_config,
    ensures
        fingerprint(one) == fingerprint(other),
        has_fingerprint(one) == has_fingerprint(other),
{
}

/// Environments that are made from the same configuration in state, by the
/// same process, with the same timed features, version of the gas features
/// and configuration of the virtual machine, have the same fingerprint,
/// whatever their gas parameters are, whatever they run with and whatever
/// they are made for.
pub proof fn lemma_fingerprint_ignores_what_follows_from_the_rest<G, S, R, H, T, Q>(
    on_chain: OnChainConfigView,
    options: BuildOptionsView,
    derived: DerivedConfig<G, S, R>,
    inject_create_signer_for_gov_sim: bool,
    other_derived: DerivedConfig<H, T, Q>,
    other_inject_create_signer_for_gov_sim: bool,
)
    requires
        derived.timed_features@ == other_derived.timed_features@,
        derived.gas_feature_version == other_derived.gas_feature_version,
        derived.vm_config@ == other_derived.vm_config@,
    ensures
        fingerprint(built(on_chain, options, derived, inject_create_signer_for_gov_sim))
            == fingerprint(
            built(on_chain, options, other_derived, other_inject_create_signer_for_gov_sim),
        ),
        fingerprint(
            built(
                on_chain,
                options,
                derived,
                inject_create_signer_for_gov_sim,
            ).try_enable_delayed_field_optimization(),
        ) == fingerprint(
            built(
                on_chain,
                options,
                other_derived,
                other_inject_create_signer_for_gov_sim,
            ).try_enable_delayed_field_optimization(),
        ),
{
}

/// Two sequences that start with a serialised length and are equal start
/// with the same length and go on in the same way.
proof fn lemma_uleb128_prefix(n: nat, rest: Seq<u8>, m: nat, other: Seq<u8>)
    requires
        uleb128(n) + rest == uleb128(m) + other,
    ensures
        n == m,
        rest == other,
    decreases n,
{
    let left = uleb128(n) + rest;
    let right = uleb128(m) + other;
    assert(left[0] == uleb128(n)[0]);
    assert(right[0] == uleb128(m)[0]);
    if n < 128 {
        assert(left.drop_first() =~= rest);
        if m < 128 {
            assert(right.drop_first() =~= other);
        }
    } else {
        assert(left.drop_first() =~= uleb128(n / 128) + rest);
        if m >= 128 {
            assert(right.drop_first() =~= uleb128(m / 128) + other);
            lemma_uleb128_prefix(n / 128, rest, m / 128, other);
        }
    }
}

/// Two equal sequences that start with parts of the same length start with
/// the same part and go on in the same way.
proof fn lemma_same_length_prefix(part: Seq<u8>, rest: Seq<u8>, other_part: Seq<u8>, other: Seq<u8>)
    requires
        part + rest == other_part + other,
        part.len() == other_part.len(),
    ensures
        part == other_part,
        rest == other,
{
    let whole = part + rest;
    let n = part.len() as int;
    assert(part =~= whole.subrange(0, n));
    assert(other_part =~= (other_part + other).subrange(0, n));
    assert(rest =~= whole.subrange(n, whole.len() as int));
    assert(other =~= (other_part + other).subrange(n, whole.len() as int));
}

/// Flags that serialise to the same bytes are the same flags.
proof fn lemma_flag_bytes(flags: Seq<bool>, other: Seq<bool>)
    requires
        flags.map_values(|flag: bool| bool_byte(flag)) == other.map_values(
            |flag: bool| bool_byte(flag),
        ),
    ensures
        flags == other,
{
    let left = flags.map_values(|flag: bool| bool_byte(flag));
    let right = other.map_values(|flag: bool| bool_byte(flag));
    assert(flags.len() == left.len());
    assert(other.len() == right.len());
    assert forall|i: int| 0 <= i < flags.len() implies flags[i] == other[i] by {
        assert(left[i] == bool_byte(flags[i]));
        assert(right[i] == bool_byte(other[i]));
    }
    assert(flags =~= other);
}

/// Two equal sequences that start with serialised bytes start with the same
/// bytes and go on in the same way.
proof fn lemma_serialized_bytes_prefix(
    bytes: Seq<u8>,
    rest: Seq<u8>,
    other_bytes: Seq<u8>,
    other: Seq<u8>,
)
    requires
        serialized_bytes(bytes) + rest == serialized_bytes(other_bytes) + other,
    ensures
        bytes == other_bytes,
        rest == other,
{
    assert(serialized_bytes(bytes) + rest =~= uleb128(bytes.len()) + (bytes + rest));
    assert(serialized_bytes(other_bytes) + other =~= uleb128(other_bytes.len()) + (other_bytes
        + other));
    lemma_uleb128_prefix(bytes.len(), bytes + rest, other_bytes.len(), other_bytes + other);
    lemma_same_length_prefix(bytes, rest, other_bytes, other);
}

/// Two equal sequences that start with serialised flags start with the same
/// flags and go on in the same way.
proof fn lemma_serialized_flags_prefix(
    flags: Seq<bool>,
    rest: Seq<u8>,
    other_flags: Seq<bool>,
    other: Seq<u8>,
)
    requires
        serialized_flags(flags) + rest == serialized_flags(other_flags) + other,
    ensures
        flags == other_flags,
        rest == other,
{
    let bytes = flags.map_values(|flag: bool| bool_byte(flag));
    let other_bytes = other_flags.map_values(|flag: bool| bool_byte(flag));
    assert(serialized_flags(flags) + rest =~= uleb128(flags.len()) + (bytes + rest));
    assert(serialized_flags(other_flags) + other =~= uleb128(other_flags.len()) + (other_bytes
        + other));
    lemma_uleb128_prefix(flags.len(), bytes + rest, other_flags.len(), other_bytes + other);
    lemma_same_length_prefix(bytes, rest, other_bytes, other);
    lemma_flag_bytes(flags, other_flags);
}

/// Configurations of the virtual machine that serialise to the same bytes are
/// the same.
proof fn lemma_serialized_vm_config(vm_config: VmConfigView, other: VmConfigView)
    requires
        serialized_vm_config(vm_config) == serialized_vm_config(other),
    ensures
        vm_config == other,
{
    let flag = seq![bool_byte(vm_config.delayed_field_optimization_enabled)];
    let other_flag = seq![bool_byte(other.delayed_field_optimization_enabled)];
    lemma_same_length_prefix(
        flag,
        serialized_bytes(vm_config.settings),
        other_flag,
        serialized_bytes(other.settings),
    );
    assert(flag[0] == other_flag[0]);
    assert(serialized_bytes(vm_config.settings) + Seq::<u8>::empty() =~= serialized_bytes(
        vm_config.settings,
    ));
    assert(serialized_bytes(other.settings) + Seq::<u8>::empty() =~= serialized_bytes(
        other.settings,
    ));
    lemma_serialized_bytes_prefix(
        vm_config.settings,
        Seq::<u8>::empty(),
        other.settings,
        Seq::<u8>::empty(),
    );
}

/// Versions that serialise to the same bytes are the same.
proof fn lemma_serialized_version(version: u64, other: u64)
    requires
        spec_u64_to_le_bytes(version) == spec_u64_to_le_bytes(other),
    ensures
        version == other,
{
    lemma_auto_spec_u64_to_from_le_bytes();
}

/// Environments with the same fingerprint have the same chain, the same
/// features, the same timed features, the same version of the gas features
/// and the same configuration of the virtual machine: as far as the
/// fingerprint goes, one can stand in for the other.
pub proof fn lemma_fingerprint_tells_configurations_apart<G, S, R, H, T, Q>(
    one: EnvironmentView<G, S, R>,
    other: EnvironmentView<H, T, Q>,
)
    requires
        fingerprint(one) == fingerprint(other),
    ensures
        one.chain_id == other.chain_id,
        one.features == other.features,
        one.timed_features == other.timed_features,
        one.gas_feature_version == other.gas_feature_version,
        one.vm_config == other.vm_config,
{
    let a4 = serialized_vm_config(one.vm_config);
    let a3 = spec_u64_to_le_bytes(one.gas_feature_version) + a4;
    let a2 = serialized_flags(one.timed_features) + a3;
    let a1 = serialized_bytes(one.features) + a2;
    let b4 = serialized_vm_config(other.vm_config);
    let b3 = spec_u64_to_le_bytes(other.gas_feature_version) + b4;
    let b2 = serialized_flags(other.timed_features) + b3;
    let b1 = serialized_bytes(other.features) + b2;
    assert(one.chain_id == other.chain_id && a1 == b1) by {
        lemma_same_length_prefix(seq![one.chain_id], a1, seq![other.chain_id], b1);
        assert(seq![one.chain_id][0] == seq![other.chain_id][0]);
    }
    assert(one.features == other.features && a2 == b2) by {
        lemma_serialized_bytes_prefix(one.features, a2, other.features, b2);
    }
    assert(one.timed_features == other.timed_features && a3 == b3) by {
        lemma_serialized_flags_prefix(one.timed_features, a3, other.timed_features, b3);
    }
    assert(one.gas_feature_version == other.gas_feature_version && a4 == b4) by {
        lemma_auto_spec_u64_to_from_le_bytes();
        lemma_same_length_prefix(
            spec_u64_to_le_bytes(one.gas_feature_version),
            a4,
            spec_u64_to_le_bytes(other.gas_feature_version),
            b4,
        );
        lemma_serialized_version(one.gas_feature_version, other.gas_feature_version);
    }
    lemma_serialized_vm_config(one.vm_config, other.vm_config);
}

} // verus!
