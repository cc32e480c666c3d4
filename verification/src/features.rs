//! The set of feature flags, as the chain keeps it: one bit per flag.

use vstd::prelude::*;

verus! {

/// The byte that holds the bit of `flag`.
pub open spec fn byte_index(flag: u64) -> int {
    flag as int / 8
}

/// The byte with only the bit of `flag` set.
pub open spec fn bit_mask(flag: u64) -> u8 {
    1u8 << ((flag % 8) as u8)
}

/// Whether the bit of `flag` is set in `bytes`. A flag whose byte lies beyond
/// the end of `bytes` is not enabled.
pub open spec fn is_enabled_in(bytes: Seq<u8>, flag: u64) -> bool {
    byte_index(flag) < bytes.len() && bytes[byte_index(flag)] & bit_mask(flag) != 0
}

/// `bytes` with zero bytes added at the end until it has at least `len` bytes.
pub open spec fn padded(bytes: Seq<u8>, len: int) -> Seq<u8> {
    if bytes.len() >= len {
        bytes
    } else {
        bytes + Seq::new((len - bytes.len()) as nat, |i: int| 0u8)
    }
}

/// `bytes` with the bit of `flag` set: the bytes grow as far as that bit.
pub open spec fn enabled_in(bytes: Seq<u8>, flag: u64) -> Seq<u8> {
    let grown = padded(bytes, byte_index(flag) + 1);
    grown.update(byte_index(flag), grown[byte_index(flag)] | bit_mask(flag))
}

/// `bytes` with the bit of `flag` cleared: the bytes keep their length.
pub open spec fn disabled_in(bytes: Seq<u8>, flag: u64) -> Seq<u8> {
    if byte_index(flag) < bytes.len() {
        bytes.update(byte_index(flag), bytes[byte_index(flag)] & !bit_mask(flag))
    } else {
        bytes
    }
}

proof fn lemma_bit_set(byte: u8, a: u8, b: u8)
    requires
        a < 8,
        b < 8,
    ensures
        ((byte | (1u8 << a)) & (1u8 << b) != 0) == (a == b || byte & (1u8 << b) != 0),
{
    assert(((byte | (1u8 << a)) & (1u8 << b) != 0) == (a == b || byte & (1u8 << b) != 0))
        by (bit_vector)
        requires
            a < 8,
            b < 8,
    ;
}

proof fn lemma_bit_cleared(byte: u8, a: u8, b: u8)
    requires
        a < 8,
        b < 8,
    ensures
        ((byte & !(1u8 << a)) & (1u8 << b) != 0) == (a != b && byte & (1u8 << b) != 0),
{
    assert(((byte & !(1u8 << a)) & (1u8 << b) != 0) == (a != b && byte & (1u8 << b) != 0))
        by (bit_vector)
        requires
            a < 8,
            b < 8,
    ;
}

proof fn lemma_zero_has_no_bit(b: u8)
    requires
        b < 8,
    ensures
        0u8 & (1u8 << b) == 0,
{
    assert(0u8 & (1u8 << b) == 0) by (bit_vector)
        requires
            b < 8,
    ;
}

/// Enabling a flag enables that flag and changes no other.
pub proof fn lemma_enable(bytes: Seq<u8>, flag: u64, other: u64)
    ensures
        is_enabled_in(enabled_in(bytes, flag), other) == (other == flag || is_enabled_in(
            bytes,
            other,
        )),
{
    let grown = padded(bytes, byte_index(flag) + 1);
    let a = (flag % 8) as u8;
    let b = (other % 8) as u8;
    if byte_index(other) < grown.len() {
        if byte_index(other) >= bytes.len() {
            lemma_zero_has_no_bit(b);
        }
        lemma_bit_set(grown[byte_index(other)], a, b);
    }
}

/// Disabling a flag disables that flag and changes no other.
pub proof fn lemma_disable(bytes: Seq<u8>, flag: u64, other: u64)
    ensures
        is_enabled_in(disabled_in(bytes, flag), other) == (other != flag && is_enabled_in(
            bytes,
            other,
        )),
{
    let a = (flag % 8) as u8;
    let b = (other % 8) as u8;
    if byte_index(other) < bytes.len() {
        lemma_bit_cleared(bytes[byte_index(other)], a, b);
    }
}

/// A set of feature flags. A flag is a number; flag `n` is bit `n % 8`,
/// counted from the least significant, of byte `n / 8`.
#[derive(Debug, PartialEq, Eq)]
pub struct Features {
    features: Vec<u8>,
}

impl View for Features {
    type V = Seq<u8>;

    closed spec fn view(&self) -> Seq<u8> {
        self.features@
    }
}

impl Features {
    /// Whether `flag` is in the set.
    pub open spec fn has(&self, flag: u64) -> bool {
        is_enabled_in(self@, flag)
    }

    /// The set that `features` holds, one bit per flag.
    pub fn new(features: Vec<u8>) -> (set: Self)
        ensures
            set@ == features@,
    {
        Features { features }
    }

    /// The bytes of the set.
    pub fn as_bytes(&self) -> (bytes: &Vec<u8>)
        ensures
            bytes@ == self@,
    {
        &self.features
    }

    /// A second set with the same bytes.
    pub fn duplicate(&self) -> (set: Self)
        ensures
            set@ == self@,
    {
        let mut features: Vec<u8> = Vec::new();
        let mut i: usize = 0;
        while i < self.features.len()
            invariant
                i <= self.features.len(),
                features@ == self.features@.subrange(0, i as int),
            decreases self.features.len() - i,
        {
            features.push(self.features[i]);
            assert(features@ =~= self.features@.subrange(0, i + 1));
            i = i + 1;
        }
        assert(features@ =~= self.features@);
        Features { features }
    }

    /// Whether two sets hold the same bytes.
    pub fn same_as(&self, other: &Features) -> (same: bool)
        ensures
            same == (self@ == other@),
    {
        if self.features.len() != other.features.len() {
            return false;
        }
        let mut i: usize = 0;
        while i < self.features.len()
            invariant
                i <= self.features.len(),
                self.features.len() == other.features.len(),
                forall|j: int| 0 <= j < i ==> self.features@[j] == other.features@[j],
            decreases self.features.len() - i,
        {
            if self.features[i] != other.features[i] {
                return false;
            }
            i = i + 1;
        }
        assert(self@ =~= other@);
        true
    }

    /// Whether `flag` is in the set.
    pub fn is_enabled(&self, flag: u64) -> (enabled: bool)
        ensures
            enabled == self.has(flag),
    {
        let index: u64 = flag / 8;
        if index >= self.features.len() as u64 {
            return false;
        }
        let mask: u8 = 1u8 << ((flag % 8) as u8);
        self.features[index as usize] & mask != 0
    }

    /// Puts `flag` into the set.
    pub fn enable(&mut self, flag: u64)
        requires
            flag / 8 < usize::MAX,
        ensures
            final(self)@ == enabled_in(old(self)@, flag),
            forall|other: u64| #[trigger]
                final(self).has(other) == (other == flag || old(self).has(other)),
    {
        let index: usize = (flag / 8) as usize;
        let mask: u8 = 1u8 << ((flag % 8) as u8);
        let ghost before = self.features@;
        while self.features.len() <= index
            invariant
                index < usize::MAX,
                self.features@.len() <= index + 1 || self.features@.len() == before.len(),
                self.features@ == padded(before, self.features@.len() as int),
            decreases index + 1 - self.features.len(),
        {
            self.features.push(0u8);
            assert(self.features@ =~= padded(before, self.features@.len() as int));
        }
        assert(self.features@ =~= padded(before, index + 1));
        let byte: u8 = self.features[index];
        self.features[index] = byte | mask;
        proof {
            assert(self.features@ =~= enabled_in(before, flag));
            assert forall|other: u64| #[trigger]
                self.has(other) == (other == flag || is_enabled_in(before, other)) by {
                lemma_enable(before, flag, other);
            }
        }
    }

    /// Takes `flag` out of the set.
    pub fn disable(&mut self, flag: u64)
        ensures
            final(self)@ == disabled_in(old(self)@, flag),
            forall|other: u64| #[trigger]
                final(self).has(other) == (other != flag && old(self).has(other)),
    {
        let ghost before = self.features@;
        let index: u64 = flag / 8;
        if index < self.features.len() as u64 {
            let mask: u8 = 1u8 << ((flag % 8) as u8);
            let byte: u8 = self.features[index as usize];
            self.features[index as usize] = byte & !mask;
        }
        proof {
            assert(self.features@ =~= disabled_in(before, flag));
            assert forall|other: u64| #[trigger]
                self.has(other) == (other != flag && is_enabled_in(before, other)) by {
                lemma_disable(before, flag, other);
            }
        }
    }
}

} // verus!
