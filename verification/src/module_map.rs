//! A map from storage keys to module entries.
//!
//! The entries are kept by the name of the module, in a hash map; the few
//! modules of one name, published at different addresses, are kept in a list
//! in which no address occurs twice.

use crate::module_entry::{share, EntryView, ModuleStorageEntry};
use crate::module_id::{AccountAddress, ModuleKey, StateKey};
use std::sync::Arc;
use vstd::hash_map::StringHashMap;
use vstd::prelude::*;

verus! {

/// Whether position `i` of `bucket` holds the module published at `address`.
pub open spec fn holds_at<P, M>(
    bucket: Seq<(AccountAddress, Arc<ModuleStorageEntry<P, M>>)>,
    i: int,
    address: Seq<u8>,
) -> bool {
    0 <= i < bucket.len() && bucket[i].0@ == address
}

/// Whether no two positions of `bucket` hold the same address.
pub open spec fn distinct_addresses<P, M>(
    bucket: Seq<(AccountAddress, Arc<ModuleStorageEntry<P, M>>)>,
) -> bool {
    forall|i: int, j: int|
        0 <= i < bucket.len() && 0 <= j < bucket.len() && i != j ==> (#[trigger] bucket[i]).0@ != (
        #[trigger] bucket[j]).0@
}

/// Whether the modules kept by name hold one for `key`.
pub open spec fn holds<P, M>(
    by_name: Map<Seq<char>, Vec<(AccountAddress, Arc<ModuleStorageEntry<P, M>>)>>,
    key: ModuleKey,
) -> bool {
    by_name.contains_key(key.name) && exists|i: int| holds_at(by_name[key.name]@, i, key.address)
}

/// The map that the modules kept by name stand for.
pub open spec fn map_of<P, M>(
    by_name: Map<Seq<char>, Vec<(AccountAddress, Arc<ModuleStorageEntry<P, M>>)>>,
) -> Map<ModuleKey, EntryView<P, M>> {
    Map::new(
        |key: ModuleKey| holds(by_name, key),
        |key: ModuleKey|
            (*by_name[key.name]@[choose|i: int| holds_at(by_name[key.name]@, i, key.address)].1)@,
    )
}

/// A map from storage keys to module entries.
#[verifier::reject_recursive_types(P)]
#[verifier::reject_recursive_types(M)]
pub struct ModuleMap<P, M> {
    by_name: StringHashMap<Vec<(AccountAddress, Arc<ModuleStorageEntry<P, M>>)>>,
}

impl<P, M> View for ModuleMap<P, M> {
    type V = Map<ModuleKey, EntryView<P, M>>;

    closed spec fn view(&self) -> Map<ModuleKey, EntryView<P, M>> {
        map_of(self.by_name@)
    }
}

/// The position in `bucket` of the module published at `address`, if it is
/// there.
fn position<P, M>(
    bucket: &Vec<(AccountAddress, Arc<ModuleStorageEntry<P, M>>)>,
    address: &AccountAddress,
) -> (found: Option<usize>)
    ensures
        match found {
            Some(i) => holds_at(bucket@, i as int, address@),
            None => forall|i: int| !holds_at(bucket@, i, address@),
        },
{
    let mut i: usize = 0;
    while i < bucket.len()
        invariant
            i <= bucket.len(),
            forall|j: int| 0 <= j < i ==> !holds_at(bucket@, j, address@),
        decreases bucket.len() - i,
    {
        if bucket[i].0.same_as(address) {
            return Some(i);
        }
        i = i + 1;
    }
    None
}

/// `bucket` with `entry` for the module published at `address`, in place of
/// the entry that `bucket` held for it, if it held one.
fn with_entry<P, M>(
    bucket: &Vec<(AccountAddress, Arc<ModuleStorageEntry<P, M>>)>,
    address: AccountAddress,
    entry: Arc<ModuleStorageEntry<P, M>>,
) -> (changed: Vec<(AccountAddress, Arc<ModuleStorageEntry<P, M>>)>)
    requires
        distinct_addresses(bucket@),
    ensures
        distinct_addresses(changed@),
        exists|i: int| holds_at(changed@, i, address@) && *changed@[i].1 == *entry,
        forall|other: Seq<u8>, i: int|
            other != address@ && holds_at(bucket@, i, other) ==> holds_at(changed@, i, other)
                && changed@[i].1 == bucket@[i].1,
        forall|other: Seq<u8>, i: int|
            other != address@ && holds_at(changed@, i, other) ==> holds_at(bucket@, i, other),
{
    let found = position(bucket, &address);
    let mut changed: Vec<(AccountAddress, Arc<ModuleStorageEntry<P, M>>)> = Vec::new();
    let mut i: usize = 0;
    while i < bucket.len()
        invariant
            i <= bucket.len(),
            changed@.len() == i,
            match found {
                Some(at) => holds_at(bucket@, at as int, address@),
                None => forall|j: int| !holds_at(bucket@, j, address@),
            },
            forall|j: int| 0 <= j < i ==> (#[trigger] changed@[j]).0@ == bucket@[j].0@,
            forall|j: int|
                0 <= j < i && found != Some(j as usize) ==> (#[trigger] changed@[j]).1
                    == bucket@[j].1,
            forall|j: int|
                0 <= j < i && found == Some(j as usize) ==> *(#[trigger] changed@[j]).1 == *entry,
        decreases bucket.len() - i,
    {
        let here = match found {
            Some(at) => at == i,
            None => false,
        };
        if here {
            changed.push((bucket[i].0, share(&entry)));
        } else {
            changed.push((bucket[i].0, share(&bucket[i].1)));
        }
        i = i + 1;
    }
    match found {
        Some(at) => {
            proof {
                assert(holds_at(changed@, at as int, address@));
                assert forall|a: int, b: int|
                    0 <= a < changed@.len() && 0 <= b < changed@.len() && a != b implies (
                #[trigger] changed@[a]).0@ != (#[trigger] changed@[b]).0@ by {
                    assert(bucket@[a].0@ != bucket@[b].0@);
                }
                assert forall|other: Seq<u8>, j: int|
                    other != address@ && holds_at(bucket@, j, other) implies holds_at(
                    changed@,
                    j,
                    other,
                ) && changed@[j].1 == bucket@[j].1 by {
                    assert(changed@[j].0@ == bucket@[j].0@);
                }
                assert forall|other: Seq<u8>, j: int|
                    other != address@ && holds_at(changed@, j, other) implies holds_at(
                    bucket@,
                    j,
                    other,
                ) by {
                    assert(changed@[j].0@ == bucket@[j].0@);
                }
            }
        },
        None => {
            let ghost before = changed@;
            changed.push((address, entry));
            proof {
                let n = bucket@.len() as int;
                assert(holds_at(changed@, n, address@));
                assert forall|a: int, b: int|
                    0 <= a < changed@.len() && 0 <= b < changed@.len() && a != b implies (
                #[trigger] changed@[a]).0@ != (#[trigger] changed@[b]).0@ by {
                    if a < n {
                        assert(before[a].0@ == bucket@[a].0@);
                        assert(!holds_at(bucket@, a, address@));
                    }
                    if b < n {
                        assert(before[b].0@ == bucket@[b].0@);
                        assert(!holds_at(bucket@, b, address@));
                    }
                    if a < n && b < n {
                        assert(bucket@[a].0@ != bucket@[b].0@);
                    }
                }
                assert forall|other: Seq<u8>, j: int|
                    other != address@ && holds_at(bucket@, j, other) implies holds_at(
                    changed@,
                    j,
                    other,
                ) && changed@[j].1 == bucket@[j].1 by {
                    assert(before[j].0@ == bucket@[j].0@);
                }
                assert forall|other: Seq<u8>, j: int|
                    other != address@ && holds_at(changed@, j, other) implies holds_at(
                    bucket@,
                    j,
                    other,
                ) by {
                    assert(j < n);
                    assert(before[j].0@ == bucket@[j].0@);
                }
            }
        },
    }
    changed
}

impl<P, M> ModuleMap<P, M> {
    /// Whether no address occurs twice among the modules of one name. Every
    /// map that this module hands out is well formed, and every function keeps
    /// it so.
    pub closed spec fn well_formed(&self) -> bool {
        forall|name: Seq<char>|
            self.by_name@.contains_key(name) ==> distinct_addresses(
                (#[trigger] self.by_name@[name])@,
            )
    }

    /// A map without entries.
    pub fn new() -> (map: Self)
        ensures
            map.well_formed(),
            map@ == Map::<ModuleKey, EntryView<P, M>>::empty(),
    {
        let map = ModuleMap { by_name: StringHashMap::new() };
        assert(map@ =~= Map::<ModuleKey, EntryView<P, M>>::empty());
        map
    }

    /// The entry stored under `key`, if there is one.
    pub fn get(&self, key: &StateKey) -> (found: Option<Arc<ModuleStorageEntry<P, M>>>)
        requires
            self.well_formed(),
        ensures
            match found {
                Some(entry) => self@.contains_key(key@) && self@[key@] == (*entry)@,
                None => !self@.contains_key(key@),
            },
    {
        match self.by_name.get(key.module_name()) {
            None => None,
            Some(bucket) => {
                match position(bucket, key.address()) {
                    None => None,
                    Some(i) => {
                        let entry = share(&bucket[i].1);
                        proof {
                            let chosen = choose|j: int| holds_at(bucket@, j, key@.address);
                            assert(holds_at(bucket@, i as int, key@.address));
                            assert(chosen == i);
                        }
                        Some(entry)
                    },
                }
            },
        }
    }

    /// Stores `entry` under `key`, in place of what was stored there.
    pub fn insert(&mut self, key: StateKey, entry: Arc<ModuleStorageEntry<P, M>>)
        requires
            old(self).well_formed(),
        ensures
            final(self).well_formed(),
            final(self)@ == old(self)@.insert(key@, (*entry)@),
    {
        let ghost before = self.by_name@;
        let ghost k = key@;
        let ghost e = (*entry)@;
        let bucket = match self.by_name.get(key.module_name()) {
            Some(bucket) => with_entry(bucket, *key.address(), share(&entry)),
            None => {
                let empty: Vec<(AccountAddress, Arc<ModuleStorageEntry<P, M>>)> = Vec::new();
                with_entry(&empty, *key.address(), share(&entry))
            },
        };
        let ghost old_bucket: Seq<(AccountAddress, Arc<ModuleStorageEntry<P, M>>)> =
            if before.contains_key(k.name) {
            before[k.name]@
        } else {
            Seq::empty()
        };
        let ghost new_bucket = bucket@;
        let (_, name) = key.into_parts();
        self.by_name.insert(name, bucket);
        proof {
            let after = self.by_name@;
            assert(after[k.name]@ == new_bucket);
            let at = choose|i: int|
                holds_at(new_bucket, i, k.address) && *new_bucket[i].1 == *entry;
            assert(holds(after, k));
            assert forall|q: ModuleKey| #[trigger]
                map_of(after).contains_key(q) == map_of(before).insert(k, e).contains_key(q) by {
                if q != k {
                    if q.name != k.name {
                        assert(after.contains_key(q.name) == before.contains_key(q.name));
                        if before.contains_key(q.name) {
                            assert(after[q.name] == before[q.name]);
                        }
                        if holds(before, q) {
                            let i = choose|i: int| holds_at(before[q.name]@, i, q.address);
                            assert(holds_at(after[q.name]@, i, q.address));
                        }
                        if holds(after, q) {
                            let i = choose|i: int| holds_at(after[q.name]@, i, q.address);
                            assert(holds_at(before[q.name]@, i, q.address));
                        }
                    } else {
                        if holds(before, q) {
                            let i = choose|i: int| holds_at(before[q.name]@, i, q.address);
                            assert(holds_at(old_bucket, i, q.address));
                            assert(holds_at(new_bucket, i, q.address));
                        }
                        if holds(after, q) {
                            let i = choose|i: int| holds_at(after[q.name]@, i, q.address);
                            assert(holds_at(new_bucket, i, q.address));
                            assert(holds_at(old_bucket, i, q.address));
                        }
                    }
                }
            }
            assert forall|q: ModuleKey| #[trigger]
                map_of(after).contains_key(q) implies map_of(after)[q] == map_of(before).insert(
                k,
                e,
            )[q] by {
                let j = choose|j: int| holds_at(after[q.name]@, j, q.address);
                if q == k {
                    assert(holds_at(new_bucket, at, k.address));
                    assert(j == at);
                } else if q.name != k.name {
                    assert(after[q.name] == before[q.name]);
                } else {
                    assert(holds_at(new_bucket, j, q.address));
                    assert(holds_at(old_bucket, j, q.address));
                    let j0 = choose|j0: int| holds_at(before[q.name]@, j0, q.address);
                    assert(holds_at(before[q.name]@, j, q.address));
                    assert(j0 == j);
                }
            }
            assert(map_of(after) =~= map_of(before).insert(k, e));
            assert forall|name: Seq<char>| after.contains_key(name) implies distinct_addresses(
                (#[trigger] after[name])@,
            ) by {
                if name != k.name {
                    assert(after[name] == before[name]);
                }
            }
        }
    }

    /// Removes every entry.
    pub fn clear(&mut self)
        ensures
            final(self).well_formed(),
            final(self)@ == Map::<ModuleKey, EntryView<P, M>>::empty(),
    {
        self.by_name.clear();
        assert(self@ =~= Map::<ModuleKey, EntryView<P, M>>::empty());
    }
}

} // verus!
