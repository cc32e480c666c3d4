//! Addresses and the keys under which modules are stored.

use vstd::prelude::*;

verus! {

/// The address of an account: 32 bytes.
#[derive(Clone, Copy, Debug, PartialEq, Eq, Hash)]
pub struct AccountAddress {
    bytes: [u8; 32],
}

impl View for AccountAddress {
    type V = Seq<u8>;

    open spec fn view(&self) -> Seq<u8> {
        self.bytes()
    }
}

impl AccountAddress {
    /// The bytes of the address, most significant first.
    pub closed spec fn bytes(&self) -> Seq<u8> {
        self.bytes@
    }

    /// An address always has 32 bytes.
    pub proof fn lemma_length(&self)
        ensures
            self@.len() == 32,
    {
    }

    pub fn new(bytes: [u8; 32]) -> (address: Self)
        ensures
            address@ == bytes@,
    {
        AccountAddress { bytes }
    }

    /// What `AccountAddress::one()` is: 31 zero bytes, then a one.
    pub open spec fn spec_one() -> Seq<u8> {
        Seq::new(32, |i: int| if i == 31 { 1u8 } else { 0u8 })
    }

    /// The address `0x1`, under which the framework's modules are published.
    pub fn one() -> (address: Self)
        ensures
            address@ == Self::spec_one(),
    {
        let mut bytes: [u8; 32] = [0u8; 32];
        bytes[31] = 1u8;
        let address = AccountAddress { bytes };
        assert(address@ =~= Self::spec_one());
        address
    }

    pub fn into_bytes(self) -> (bytes: [u8; 32])
        ensures
            bytes@ == self@,
    {
        self.bytes
    }

    /// Whether two addresses hold the same bytes.
    pub fn same_as(&self, other: &AccountAddress) -> (same: bool)
        ensures
            same == (self@ == other@),
    {
        let mut i: usize = 0;
        while i < 32
            invariant
                i <= 32,
                forall|j: int| 0 <= j < i ==> self.bytes@[j] == other.bytes@[j],
            decreases 32 - i,
        {
            if self.bytes[i] != other.bytes[i] {
                return false;
            }
            i = i + 1;
        }
        assert(self@ =~= other@);
        true
    }
}

/// What a `StateKey` stands for: the module `name` published at `address`.
pub struct ModuleKey {
    pub address: Seq<u8>,
    pub name: Seq<char>,
}

/// The key of a module in state storage, made of the address it is published
/// at and its name.
#[derive(Debug, PartialEq, Eq, Hash)]
pub struct StateKey {
    address: AccountAddress,
    module_name: String,
}

impl View for StateKey {
    type V = ModuleKey;

    closed spec fn view(&self) -> ModuleKey {
        ModuleKey { address: self.address@, name: self.module_name@ }
    }
}

impl StateKey {
    /// The key of the module `module_name` at `address`.
    pub fn module(address: &AccountAddress, module_name: &str) -> (key: Self)
        ensures
            key@ == (ModuleKey { address: address@, name: module_name@ }),
    {
        StateKey { address: *address, module_name: module_name.to_owned() }
    }

    pub fn address(&self) -> (address: &AccountAddress)
        ensures
            address@ == self@.address,
    {
        &self.address
    }

    pub fn module_name(&self) -> (name: &str)
        ensures
            name@ == self@.name,
    {
        self.module_name.as_str()
    }

    /// The address and the name, apart.
    pub fn into_parts(self) -> (parts: (AccountAddress, String))
        ensures
            parts.0@ == self@.address,
            parts.1@ == self@.name,
    {
        (self.address, self.module_name)
    }

    /// Whether two keys name the same module.
    pub fn same_as(&self, other: &StateKey) -> (same: bool)
        ensures
            same == (self@ == other@),
    {
        self.address.same_as(&other.address) && self.module_name == other.module_name
    }

    /// A second key for the same module.
    pub fn duplicate(&self) -> (key: Self)
        ensures
            key@ == self@,
    {
        StateKey { address: self.address, module_name: self.module_name.clone() }
    }
}

} // verus!
