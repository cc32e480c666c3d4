use std::sync::Arc;
use vm_environment::cross_block::CrossBlockModuleCache;
use vm_environment::module_cache::ModuleCache;
use vm_environment::module_entry::{ModuleStateValue, ModuleStorageEntry};
use vm_environment::module_id::{AccountAddress, StateKey};
use vm_environment::module_map::ModuleMap;

fn key(name: &str) -> StateKey {
    StateKey::module(&AccountAddress::one(), name)
}

fn entry(name: &str) -> Arc<ModuleStorageEntry<Vec<u8>, u64>> {
    Arc::new(ModuleStorageEntry::from_state_value(ModuleStateValue::new(
        name.as_bytes().to_vec(),
        [3u8; 32],
        name.len(),
        key(name),
        vec![],
    )))
}

#[test]
fn address_one_ends_in_a_one() {
    let mut expected = [0u8; 32];
    expected[31] = 1;
    assert_eq!(AccountAddress::one().into_bytes(), expected);
    assert_eq!(AccountAddress::one(), AccountAddress::new(expected));
    assert!(AccountAddress::one().same_as(&AccountAddress::new(expected)));
    assert!(!AccountAddress::one().same_as(&AccountAddress::new([0u8; 32])));
}

#[test]
fn addresses_differ_in_any_byte() {
    let zero = AccountAddress::new([0u8; 32]);
    for i in 0..32 {
        let mut bytes = [0u8; 32];
        bytes[i] = 1;
        assert!(!zero.same_as(&AccountAddress::new(bytes)));
    }
}

#[test]
fn keys_are_made_of_address_and_name() {
    let one = key("coin");
    assert_eq!(one.address(), &AccountAddress::one());
    assert_eq!(one.module_name(), "coin");
    assert!(one.same_as(&key("coin")));
    assert!(one.same_as(&one.duplicate()));
    assert!(!one.same_as(&key("coins")));
    assert!(!one.same_as(&StateKey::module(&AccountAddress::new([0u8; 32]), "coin")));
}

#[test]
fn entry_keeps_what_it_was_made_from() {
    let value = ModuleStateValue::new(
        vec![1, 2, 3],
        [9u8; 32],
        3,
        key("a"),
        vec![key("b"), key("c")],
    );
    assert_eq!(value.parsed(), &vec![1, 2, 3]);
    assert_eq!(value.hash(), &[9u8; 32]);
    assert_eq!(value.size_in_bytes(), 3);
    assert_eq!(value.self_id(), &key("a"));
    assert_eq!(value.immediate_dependencies(), &vec![key("b"), key("c")]);

    let entry: ModuleStorageEntry<Vec<u8>, u64> = ModuleStorageEntry::from_state_value(value);
    assert!(!entry.is_verified());
    assert!(entry.try_as_verified_module().is_none());
    assert_eq!(entry.parsed(), &vec![1, 2, 3]);
    assert_eq!(entry.hash(), &[9u8; 32]);
    assert_eq!(entry.size_in_bytes(), 3);
    assert_eq!(entry.state_value().self_id(), &key("a"));
}

#[test]
fn verified_entry_holds_the_module_and_the_same_bytes() {
    let unverified = entry("a");
    let module = Arc::new(17u64);

    let verified = unverified.make_verified(module.clone());

    assert!(verified.is_verified());
    assert!(Arc::ptr_eq(&verified.try_as_verified_module().unwrap(), &module));
    assert_eq!(verified.parsed(), unverified.parsed());
    assert!(std::ptr::eq(verified.state_value(), unverified.state_value()));
    assert!(!unverified.is_verified());
}

#[test]
fn map_holds_the_last_entry_stored_under_a_key() {
    let mut map: ModuleMap<Vec<u8>, u64> = ModuleMap::new();
    assert!(map.get(&key("a")).is_none());
    let first = entry("a");
    let second = entry("a");
    let other = entry("b");

    map.insert(key("a"), first.clone());
    map.insert(key("b"), other.clone());
    assert!(Arc::ptr_eq(&map.get(&key("a")).unwrap(), &first));

    map.insert(key("a"), second.clone());
    assert!(Arc::ptr_eq(&map.get(&key("a")).unwrap(), &second));
    assert!(Arc::ptr_eq(&map.get(&key("b")).unwrap(), &other));
    assert!(map.get(&key("c")).is_none());

    map.clear();
    assert!(map.get(&key("a")).is_none());
    assert!(map.get(&key("b")).is_none());
}

#[test]
fn cache_starts_empty_and_valid() {
    let cache: CrossBlockModuleCache<Vec<u8>, u64> = CrossBlockModuleCache::empty();
    assert!(!cache.is_invalidated());
    assert!(cache.get_from_cross_block_module_cache(&key("a")).is_none());
}

#[test]
fn stored_entry_is_found_again() {
    let mut cache = CrossBlockModuleCache::empty();
    let stored = entry("a");
    cache.store_to_cross_block_module_cache(key("a"), stored.clone());

    let found = cache.get_from_cross_block_module_cache(&key("a")).unwrap();

    assert!(Arc::ptr_eq(&found, &stored));
    assert!(cache.get_from_cross_block_module_cache(&key("b")).is_none());
}

#[test]
fn marking_invalid_keeps_the_entries() {
    let mut cache = CrossBlockModuleCache::empty();
    cache.store_to_cross_block_module_cache(key("a"), entry("a"));

    cache.mark_invalid();

    assert!(cache.is_invalidated());
    assert!(cache.get_from_cross_block_module_cache(&key("a")).is_some());
}

#[test]
fn flush_at_the_boundary_empties_an_invalidated_cache() {
    let mut cache = CrossBlockModuleCache::empty();
    cache.store_to_cross_block_module_cache(key("a"), entry("a"));
    cache.store_to_cross_block_module_cache(key("b"), entry("b"));
    cache.mark_invalid();

    cache.flush_cross_block_module_cache_if_invalidated();

    assert!(!cache.is_invalidated());
    assert!(cache.get_from_cross_block_module_cache(&key("a")).is_none());
    assert!(cache.get_from_cross_block_module_cache(&key("b")).is_none());
}

#[test]
fn flush_at_the_boundary_leaves_a_valid_cache_alone() {
    let mut cache = CrossBlockModuleCache::empty();
    let stored = entry("a");
    cache.store_to_cross_block_module_cache(key("a"), stored.clone());

    cache.flush_cross_block_module_cache_if_invalidated();

    assert!(!cache.is_invalidated());
    assert!(Arc::ptr_eq(&cache.get_from_cross_block_module_cache(&key("a")).unwrap(), &stored));
}

#[test]
fn flush_empties_the_cache_whatever_its_flag() {
    let mut cache = CrossBlockModuleCache::empty();
    cache.store_to_cross_block_module_cache(key("a"), entry("a"));
    cache.flush();
    assert!(cache.get_from_cross_block_module_cache(&key("a")).is_none());
    assert!(!cache.is_invalidated());

    cache.store_to_cross_block_module_cache(key("a"), entry("a"));
    cache.mark_invalid();
    cache.flush();
    assert!(cache.get_from_cross_block_module_cache(&key("a")).is_none());
    assert!(!cache.is_invalidated());
}

#[test]
fn cache_can_be_used_again_after_a_flush() {
    let mut cache = CrossBlockModuleCache::empty();
    cache.mark_invalid();
    cache.flush_cross_block_module_cache_if_invalidated();
    assert!(!cache.is_invalidated());
    cache.store_to_cross_block_module_cache(key("a"), entry("a"));
    cache.flush_cross_block_module_cache_if_invalidated();
    assert!(cache.get_from_cross_block_module_cache(&key("a")).is_some());
}

#[test]
fn module_cache_follows_the_same_protocol() {
    let mut cache: ModuleCache<Vec<u8>, u64> = ModuleCache::empty();
    assert!(!cache.is_invalidated());
    cache.insert(key("a"), entry("a"));
    cache.flush_if_invalidated_and_mark_valid();
    assert!(cache.get(&key("a")).is_some());
    cache.mark_invalid();
    assert!(cache.is_invalidated());
    assert!(cache.get(&key("a")).is_some());
    cache.flush_if_invalidated_and_mark_valid();
    assert!(!cache.is_invalidated());
    assert!(cache.get(&key("a")).is_none());
    cache.insert(key("b"), entry("b"));
    cache.flush();
    assert!(cache.get(&key("b")).is_none());
}
