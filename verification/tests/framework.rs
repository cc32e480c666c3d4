use std::sync::Arc;
use vm_environment::framework::{
    maybe_initialize_module_cache, ordered_module_names, FrameworkPreloadCache, Preloaded,
};
use vm_environment::module_entry::ModuleStateValue;
use vm_environment::module_id::{AccountAddress, StateKey};

fn key(name: &str) -> StateKey {
    StateKey::module(&AccountAddress::one(), name)
}

fn state_value(name: &str) -> ModuleStateValue<Vec<u8>> {
    ModuleStateValue::new(name.as_bytes().to_vec(), [0u8; 32], name.len(), key(name), vec![])
}

/// What is found in a state that holds every framework module but `absent`.
/// The verified module of a name is its position in the list.
fn found_without(absent: &[&str]) -> Vec<Preloaded<Vec<u8>, usize>> {
    ordered_module_names()
        .iter()
        .enumerate()
        .map(|(position, name)| {
            if absent.contains(name) {
                Preloaded { state_value: None, module: None }
            } else {
                Preloaded { state_value: Some(state_value(name)), module: Some(Arc::new(position)) }
            }
        })
        .collect()
}

#[test]
fn list_of_framework_modules_is_fixed() {
    let names = ordered_module_names();
    assert_eq!(names.len(), 72);
    assert_eq!(names[0], "vector");
    assert_eq!(names[8], "fixed_point32");
    assert_eq!(names[9], "type_info");
    assert_eq!(names[24], "aptos_hash");
    assert_eq!(names[25], "guid");
    assert_eq!(names[50], "transaction_validation");
    assert_eq!(names[64], "gas_schedule");
    assert_eq!(names[66], "gas_schedule");
    assert_eq!(names[71], "code");
}

#[test]
fn nothing_is_cached_before_the_first_load() {
    let cache: FrameworkPreloadCache<Vec<u8>, usize> = FrameworkPreloadCache::empty();
    assert!(!cache.is_loaded());
    assert!(cache.get_cached(&key("vector")).is_none());
}

#[test]
fn every_module_in_state_is_loaded() {
    let mut cache = FrameworkPreloadCache::empty();

    maybe_initialize_module_cache(&mut cache, found_without(&[]));

    assert!(cache.is_loaded());
    for name in ordered_module_names() {
        let entry = cache.get_cached(&key(name)).unwrap();
        assert!(entry.is_verified());
        assert_eq!(entry.state_value().self_id(), &key(name));
        assert_eq!(entry.parsed(), &name.as_bytes().to_vec());
    }
    assert_eq!(*cache.get_cached(&key("vector")).unwrap().try_as_verified_module().unwrap(), 0);
    assert_eq!(*cache.get_cached(&key("code")).unwrap().try_as_verified_module().unwrap(), 71);
    assert!(cache.get_cached(&key("not_a_framework_module")).is_none());
    assert!(cache
        .get_cached(&StateKey::module(&AccountAddress::new([0u8; 32]), "vector"))
        .is_none());
}

#[test]
fn later_of_two_equal_names_counts() {
    let mut cache = FrameworkPreloadCache::empty();
    maybe_initialize_module_cache(&mut cache, found_without(&[]));
    let entry = cache.get_cached(&key("gas_schedule")).unwrap();
    assert_eq!(*entry.try_as_verified_module().unwrap(), 66);
}

#[test]
fn loaded_cache_is_not_built_again() {
    let mut cache = FrameworkPreloadCache::empty();
    maybe_initialize_module_cache(&mut cache, found_without(&[]));
    let before = cache.get_cached(&key("coin")).unwrap();

    // A second load, from a state in which `coin` is gone, changes nothing.
    maybe_initialize_module_cache(&mut cache, found_without(&["coin"]));

    let after = cache.get_cached(&key("coin")).unwrap();
    assert!(Arc::ptr_eq(&before, &after));
    assert!(cache.is_loaded());
}

#[test]
fn absent_modules_are_left_out() {
    let mut cache = FrameworkPreloadCache::empty();

    maybe_initialize_module_cache(&mut cache, found_without(&["coin", "vector"]));

    assert!(cache.is_loaded());
    assert!(cache.get_cached(&key("coin")).is_none());
    assert!(cache.get_cached(&key("vector")).is_none());
    assert!(cache.get_cached(&key("aptos_coin")).is_some());
}

#[test]
fn module_is_left_out_when_only_one_half_was_found() {
    let mut found = found_without(&[]);
    found[0].module = None;
    found[1].state_value = None;
    let mut cache = FrameworkPreloadCache::empty();

    maybe_initialize_module_cache(&mut cache, found);

    assert!(cache.get_cached(&key("vector")).is_none());
    assert!(cache.get_cached(&key("signer")).is_none());
    assert!(cache.get_cached(&key("error")).is_some());
}

#[test]
fn cache_without_the_marker_is_built_again() {
    let mut cache = FrameworkPreloadCache::empty();
    maybe_initialize_module_cache(&mut cache, found_without(&["transaction_validation"]));
    assert!(!cache.is_loaded());
    assert!(cache.get_cached(&key("coin")).is_some());
    assert!(cache.get_cached(&key("transaction_validation")).is_none());

    maybe_initialize_module_cache(&mut cache, found_without(&["coin"]));

    assert!(cache.is_loaded());
    assert!(cache.get_cached(&key("coin")).is_none());
    assert!(cache.get_cached(&key("transaction_validation")).is_some());
}

#[test]
fn shorter_list_of_findings_leaves_the_rest_out() {
    let mut found = found_without(&[]);
    found.truncate(10);
    let mut cache = FrameworkPreloadCache::empty();

    maybe_initialize_module_cache(&mut cache, found);

    assert!(cache.get_cached(&key("type_info")).is_some());
    assert!(cache.get_cached(&key("ed25519")).is_none());
    assert!(!cache.is_loaded());
}

#[test]
fn longer_list_of_findings_is_cut_off() {
    let mut found = found_without(&[]);
    found.push(Preloaded { state_value: Some(state_value("extra")), module: Some(Arc::new(72)) });
    let mut cache = FrameworkPreloadCache::empty();

    maybe_initialize_module_cache(&mut cache, found);

    assert!(cache.is_loaded());
    assert!(cache.get_cached(&key("extra")).is_none());
    assert!(cache.get_cached(&key("code")).is_some());
}
