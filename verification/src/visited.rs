//! The set of modules that one traversal has descended into.
//!
//! The keys are kept by the name of the module, in a hash map; the addresses
//! at which modules of one name were met are kept in a list.

use crate::module_id::{AccountAddress, ModuleKey, StateKey};
use vstd::hash_map::StringHashMap;
use vstd::prelude::*;

verus! {

/// Whether `addresses` holds `address`.
pub open spec fn lists(addresses: Seq<AccountAddress>, address: Seq<u8>) -> bool {
    exists|i: int| 0 <= i < addresses.len() && (#[trigger] addresses[i])@ == address
}

/// The set of keys that the addresses kept by name stand for.
pub open spec fn set_of(by_name: Map<Seq<char>, Vec<AccountAddress>>) -> Set<ModuleKey> {
    Set::new(
        |key: ModuleKey| by_name.contains_key(key.name) && lists(by_name[key.name]@, key.address),
    )
}

/// A set of storage keys.
pub struct VisitedSet {
    by_name: StringHashMap<Vec<AccountAddress>>,
}

impl View for VisitedSet {
    type V = Set<ModuleKey>;

    closed spec fn view(&self) -> Set<ModuleKey> {
        set_of(self.by_name@)
    }
}

/// Whether `addresses` holds `address`.
fn is_listed(addresses: &Vec<AccountAddress>, address: &AccountAddress) -> (found: bool)
    ensures
        found == lists(addresses@, address@),
{
    let mut i: usize = 0;
    while i < addresses.len()
        invariant
            i <= addresses.len(),
            forall|j: int| 0 <= j < i ==> (#[trigger] addresses@[j])@ != address@,
        decreases addresses.len() - i,
    {
        if addresses[i].same_as(address) {
            return true;
        }
        i = i + 1;
    }
    false
}

/// `addresses`, and `address` after them.
fn with_address(addresses: &Vec<AccountAddress>, address: AccountAddress) -> (longer: Vec<
    AccountAddress,
>)
    ensures
        longer@ == addresses@.push(address),
{
    let mut longer: Vec<AccountAddress> = Vec::new();
    let mut i: usize = 0;
    while i < addresses.len()
        invariant
            i <= addresses.len(),
            longer@ == addresses@.subrange(0, i as int),
        decreases addresses.len() - i,
    {
        longer.push(addresses[i]);
        assert(longer@ =~= addresses@.subrange(0, i + 1));
        i = i + 1;
    }
    longer.push(address);
    assert(longer@ =~= addresses@.push(address));
    longer
}

impl VisitedSet {
    /// The empty set.
    pub fn new() -> (set: Self)
        ensures
            set@ == Set::<ModuleKey>::empty(),
    {
        let set = VisitedSet { by_name: StringHashMap::new() };
        assert(set@ =~= Set::<ModuleKey>::empty());
        set
    }

    /// Whether `key` is in the set.
    pub fn contains(&self, key: &StateKey) -> (found: bool)
        ensures
            found == self@.contains(key@),
    {
        match self.by_name.get(key.module_name()) {
            Some(addresses) => is_listed(addresses, key.address()),
            None => false,
        }
    }

    /// Adds `key` to the set. Returns `true` if it was not in the set before.
    pub fn insert(&mut self, key: StateKey) -> (fresh: bool)
        ensures
            fresh == !old(self)@.contains(key@),
            final(self)@ == old(self)@.insert(key@),
    {
        if self.contains(&key) {
            assert(self@ =~= self@.insert(key@));
            return false;
        }
        let ghost before = self.by_name@;
        let ghost k = key@;
        let longer = match self.by_name.get(key.module_name()) {
            Some(addresses) => with_address(addresses, *key.address()),
            None => {
                let none: Vec<AccountAddress> = Vec::new();
                with_address(&none, *key.address())
            },
        };
        let ghost shorter: Seq<AccountAddress> = if before.contains_key(k.name) {
            before[k.name]@
        } else {
            Seq::empty()
        };
        let ghost longer_list = longer@;
        let (_, name) = key.into_parts();
        self.by_name.insert(name, longer);
        proof {
            let after = self.by_name@;
            assert(after[k.name]@ == longer_list);
            assert(longer_list.len() == shorter.len() + 1);
            assert(longer_list[shorter.len() as int]@ == k.address);
            assert forall|i: int| 0 <= i < shorter.len() implies longer_list[i] == shorter[i] by {}
            assert forall|q: ModuleKey|
                set_of(after).contains(q) == set_of(before).insert(k).contains(q) by {
                if q.name != k.name {
                    if before.contains_key(q.name) {
                        assert(after[q.name] == before[q.name]);
                    }
                } else if q != k {
                    if set_of(before).contains(q) {
                        let i = choose|i: int|
                            0 <= i < shorter.len() && (#[trigger] shorter[i])@ == q.address;
                        assert(longer_list[i]@ == q.address);
                    }
                    if set_of(after).contains(q) {
                        let i = choose|i: int|
                            0 <= i < after[k.name]@.len() && (#[trigger] after[k.name]@[i])@
                                == q.address;
                        assert(i < shorter.len());
                        assert(shorter[i]@ == q.address);
                    }
                }
            }
            assert(set_of(after) =~= set_of(before).insert(k));
        }
        true
    }
}

} // verus!
