use std::collections::HashMap;
use std::sync::Arc;
use vm_environment::cross_block::CrossBlockModuleCache;
use vm_environment::module_cache::ModuleCache;
use vm_environment::module_entry::{ModuleStateValue, ModuleStorageEntry};
use vm_environment::module_id::{AccountAddress, StateKey};
use vm_environment::traversal::{Fetched, TraversalError, TraversalStep};
use vm_environment::visited::VisitedSet;

/// A module verified on its own, for these tests: its name and its size.
#[derive(Debug, PartialEq)]
struct Local {
    name: String,
    size: usize,
}

/// A verified module, for these tests: what verifying it on its own gave,
/// and the names of the verified dependencies it was linked against.
#[derive(Debug, PartialEq)]
struct Module {
    name: String,
    made_from: Local,
    linked_against: Vec<String>,
}

fn address() -> AccountAddress {
    AccountAddress::one()
}

fn key(name: &str) -> StateKey {
    StateKey::module(&address(), name)
}

fn state_value(name: &str, dependencies: &[&str]) -> ModuleStateValue<Vec<u8>> {
    ModuleStateValue::new(
        name.as_bytes().to_vec(),
        [name.len() as u8; 32],
        name.len(),
        key(name),
        dependencies.iter().map(|dependency| key(dependency)).collect(),
    )
}

fn entry(name: &str, dependencies: &[&str]) -> Arc<ModuleStorageEntry<Vec<u8>, Module>> {
    Arc::new(ModuleStorageEntry::from_state_value(state_value(name, dependencies)))
}

/// What state holds, and what the verifier would say.
#[derive(Default)]
struct World {
    modules: HashMap<String, Vec<String>>,
    malformed: HashMap<String, u64>,
    fails_locally: HashMap<String, u64>,
    fails_linking: HashMap<String, u64>,
    storage_is_down: bool,
}

impl World {
    fn with(mut self, name: &str, dependencies: &[&str]) -> Self {
        self.modules
            .insert(name.to_string(), dependencies.iter().map(|d| d.to_string()).collect());
        self
    }
}

/// What was asked of the outside while a walk ran, in order.
#[derive(Default, Debug, PartialEq)]
struct Asked {
    verified_locally: Vec<String>,
    fetched: Vec<String>,
    linked: Vec<String>,
}

fn run(
    cache: &mut CrossBlockModuleCache<Vec<u8>, Module>,
    world: &World,
    first: TraversalStep<Vec<u8>, Local, Module>,
    asked: &mut Asked,
) -> Result<Arc<Module>, TraversalError> {
    let mut step = first;
    loop {
        step = match step {
            TraversalStep::VerifyLocally(waiting) => {
                let name = waiting.entry().state_value().self_id().module_name().to_string();
                asked.verified_locally.push(name.clone());
                let outcome = match world.fails_locally.get(&name) {
                    Some(status_code) => Err(*status_code),
                    None => Ok(Local { name: name.clone(), size: waiting.entry().size_in_bytes() }),
                };
                cache.resume_local_verification(waiting, outcome)
            },
            TraversalStep::Fetch(waiting) => {
                let name = waiting.key().module_name().to_string();
                asked.fetched.push(name.clone());
                let fetched = if world.storage_is_down {
                    Fetched::StorageError
                } else if let Some(status_code) = world.malformed.get(&name) {
                    Fetched::Malformed(*status_code)
                } else {
                    match world.modules.get(&name) {
                        Some(dependencies) => {
                            let dependencies: Vec<&str> =
                                dependencies.iter().map(|d| d.as_str()).collect();
                            Fetched::Found(state_value(&name, &dependencies))
                        },
                        None => Fetched::Missing,
                    }
                };
                waiting.resume(fetched)
            },
            TraversalStep::Link(waiting, local) => {
                let name = waiting.entry().state_value().self_id().module_name().to_string();
                assert_eq!(local, Local { name: name.clone(), size: name.len() });
                asked.linked.push(name.clone());
                let outcome = match world.fails_linking.get(&name) {
                    Some(status_code) => Err(*status_code),
                    None => Ok(Arc::new(Module {
                        name,
                        made_from: local,
                        linked_against: waiting
                            .dependencies()
                            .iter()
                            .map(|module| module.name.clone())
                            .collect(),
                    })),
                };
                cache.resume_linking(waiting, outcome)
            },
            TraversalStep::Done(result) => return result,
        }
    }
}

fn traverse(
    cache: &mut CrossBlockModuleCache<Vec<u8>, Module>,
    world: &World,
    name: &str,
    asked: &mut Asked,
) -> Result<Arc<Module>, TraversalError> {
    let dependencies: Vec<&str> = world.modules[name].iter().map(|d| d.as_str()).collect();
    let first = cache.traverse(entry(name, &dependencies), &address(), name);
    run(cache, world, first, asked)
}

fn is_verified_in(cache: &CrossBlockModuleCache<Vec<u8>, Module>, name: &str) -> bool {
    match cache.get_from_cross_block_module_cache(&key(name)) {
        Some(entry) => entry.is_verified(),
        None => false,
    }
}

fn names(names: &[&str]) -> Vec<String> {
    names.iter().map(|name| name.to_string()).collect()
}

#[test]
fn chain_of_dependencies_is_verified_and_cached() {
    let world = World::default().with("a", &["b"]).with("b", &["c"]).with("c", &[]);
    let mut cache = CrossBlockModuleCache::empty();
    let mut asked = Asked::default();

    let module = traverse(&mut cache, &world, "a", &mut asked).unwrap();

    assert_eq!(*module, Module {
        name: "a".to_string(),
        made_from: Local { name: "a".to_string(), size: 1 },
        linked_against: names(&["b"]),
    });
    assert!(is_verified_in(&cache, "a"));
    assert!(is_verified_in(&cache, "b"));
    assert!(is_verified_in(&cache, "c"));
    assert_eq!(asked.verified_locally, names(&["a", "b", "c"]));
    assert_eq!(asked.fetched, names(&["b", "c"]));
    assert_eq!(asked.linked, names(&["c", "b", "a"]));
}

#[test]
fn second_traversal_is_served_from_the_cache() {
    let world = World::default().with("a", &["b"]).with("b", &["c"]).with("c", &[]);
    let mut cache = CrossBlockModuleCache::empty();
    traverse(&mut cache, &world, "a", &mut Asked::default()).unwrap();

    let mut asked = Asked::default();
    let module = traverse(&mut cache, &world, "a", &mut asked).unwrap();

    assert_eq!(module.name, "a");
    assert_eq!(asked.fetched, Vec::<String>::new());
    assert_eq!(asked.verified_locally, names(&["a"]));
    assert_eq!(asked.linked, names(&["a"]));
}

#[test]
fn returned_module_is_the_one_in_the_cache() {
    let world = World::default().with("a", &[]);
    let mut cache = CrossBlockModuleCache::empty();

    let module = traverse(&mut cache, &world, "a", &mut Asked::default()).unwrap();

    let cached = cache.get_from_cross_block_module_cache(&key("a")).unwrap();
    let cached_module = cached.try_as_verified_module().unwrap();
    assert!(Arc::ptr_eq(&module, &cached_module));
    assert_eq!(cached.parsed(), &b"a".to_vec());
    assert_eq!(cached.size_in_bytes(), 1);
    assert_eq!(cached.hash(), &[1u8; 32]);
}

#[test]
fn cycle_is_reported_for_the_module_where_it_is_met() {
    let world = World::default().with("a", &["b"]).with("b", &["a"]);
    let mut cache = CrossBlockModuleCache::empty();
    let mut asked = Asked::default();

    let result = traverse(&mut cache, &world, "a", &mut asked);

    assert_eq!(result.unwrap_err(), TraversalError::CyclicDependency { key: key("a") });
    assert!(!is_verified_in(&cache, "a"));
    assert!(!is_verified_in(&cache, "b"));
    assert!(cache.get_from_cross_block_module_cache(&key("a")).is_none());
    assert!(cache.get_from_cross_block_module_cache(&key("b")).is_none());
    assert_eq!(asked.linked, Vec::<String>::new());
}

#[test]
fn module_that_depends_on_itself_is_a_cycle() {
    let world = World::default().with("a", &["a"]);
    let mut cache = CrossBlockModuleCache::empty();

    let result = traverse(&mut cache, &world, "a", &mut Asked::default());

    assert_eq!(result.unwrap_err(), TraversalError::CyclicDependency { key: key("a") });
    assert!(cache.get_from_cross_block_module_cache(&key("a")).is_none());
}

#[test]
fn longer_cycle_below_the_root_names_the_module_that_closes_it() {
    let world = World::default()
        .with("a", &["b"])
        .with("b", &["c"])
        .with("c", &["d"])
        .with("d", &["b"]);
    let mut cache = CrossBlockModuleCache::empty();

    let result = traverse(&mut cache, &world, "a", &mut Asked::default());

    assert_eq!(result.unwrap_err(), TraversalError::CyclicDependency { key: key("d") });
    for name in ["a", "b", "c", "d"] {
        assert!(cache.get_from_cross_block_module_cache(&key(name)).is_none());
    }
}

#[test]
fn missing_dependency_is_a_linker_error() {
    let world = World::default().with("a", &["gone"]);
    let mut cache = CrossBlockModuleCache::empty();
    let mut asked = Asked::default();

    let result = traverse(&mut cache, &world, "a", &mut asked);

    assert_eq!(result.unwrap_err(), TraversalError::Linker { key: key("gone") });
    assert!(cache.get_from_cross_block_module_cache(&key("a")).is_none());
    assert_eq!(asked.fetched, names(&["gone"]));
}

#[test]
fn missing_dependency_keeps_what_was_verified_before_it() {
    let world = World::default().with("a", &["b", "gone"]).with("b", &[]);
    let mut cache = CrossBlockModuleCache::empty();

    let result = traverse(&mut cache, &world, "a", &mut Asked::default());

    assert_eq!(result.unwrap_err(), TraversalError::Linker { key: key("gone") });
    assert!(is_verified_in(&cache, "b"));
    assert!(cache.get_from_cross_block_module_cache(&key("a")).is_none());
}

#[test]
fn storage_error_ends_the_walk() {
    let mut world = World::default().with("a", &["b"]).with("b", &[]);
    world.storage_is_down = true;
    let mut cache = CrossBlockModuleCache::empty();

    let result = traverse(&mut cache, &world, "a", &mut Asked::default());

    assert_eq!(result.unwrap_err(), TraversalError::StorageError);
    assert!(cache.get_from_cross_block_module_cache(&key("a")).is_none());
}

#[test]
fn malformed_dependency_is_rejected() {
    let mut world = World::default().with("a", &["b"]).with("b", &[]);
    world.malformed.insert("b".to_string(), 1009);
    let mut cache = CrossBlockModuleCache::empty();

    let result = traverse(&mut cache, &world, "a", &mut Asked::default());

    assert_eq!(result.unwrap_err(), TraversalError::Rejected { key: key("b"), status_code: 1009 });
}

#[test]
fn address_and_name_must_match() {
    let cache: CrossBlockModuleCache<Vec<u8>, Module> = CrossBlockModuleCache::empty();

    let step: TraversalStep<Vec<u8>, Local, Module> =
        cache.traverse(entry("a", &[]), &address(), "other");

    match step {
        TraversalStep::Done(Err(error)) => {
            assert_eq!(error, TraversalError::AddressNameMismatch { key: key("other") })
        },
        _ => panic!("the walk went on"),
    }
}

#[test]
fn address_must_match_too() {
    let cache: CrossBlockModuleCache<Vec<u8>, Module> = CrossBlockModuleCache::empty();
    let elsewhere = AccountAddress::new([9u8; 32]);

    let step: TraversalStep<Vec<u8>, Local, Module> =
        cache.traverse(entry("a", &[]), &elsewhere, "a");

    match step {
        TraversalStep::Done(Err(error)) => assert_eq!(
            error,
            TraversalError::AddressNameMismatch { key: StateKey::module(&elsewhere, "a") }
        ),
        _ => panic!("the walk went on"),
    }
}

#[test]
fn dependency_stored_under_another_name_is_a_mismatch() {
    // State holds, under the key of `b`, a module that calls itself `c`.
    let mut cache: CrossBlockModuleCache<Vec<u8>, Module> = CrossBlockModuleCache::empty();
    let first = cache.traverse(entry("a", &["b"]), &address(), "a");
    let waiting = match first {
        TraversalStep::VerifyLocally(waiting) => waiting,
        _ => panic!("expected local verification"),
    };
    let local = Local { name: "a".to_string(), size: 1 };
    let waiting = match cache.resume_local_verification(waiting, Ok(local)) {
        TraversalStep::Fetch(waiting) => waiting,
        _ => panic!("expected a fetch"),
    };
    assert_eq!(waiting.key(), &key("b"));

    let step = waiting.resume(Fetched::Found(state_value("c", &[])));

    match step {
        TraversalStep::Done(Err(error)) => {
            assert_eq!(error, TraversalError::AddressNameMismatch { key: key("b") })
        },
        _ => panic!("the walk went on"),
    }
    assert!(cache.get_from_cross_block_module_cache(&key("b")).is_none());
    cache.flush();
}

#[test]
fn module_rejected_on_its_own_is_not_stored() {
    let mut world = World::default().with("a", &["b"]).with("b", &[]);
    world.fails_locally.insert("b".to_string(), 1068);
    let mut cache = CrossBlockModuleCache::empty();
    let mut asked = Asked::default();

    let result = traverse(&mut cache, &world, "a", &mut asked);

    assert_eq!(result.unwrap_err(), TraversalError::Rejected { key: key("b"), status_code: 1068 });
    assert!(cache.get_from_cross_block_module_cache(&key("a")).is_none());
    assert!(cache.get_from_cross_block_module_cache(&key("b")).is_none());
    assert_eq!(asked.linked, Vec::<String>::new());
}

#[test]
fn module_rejected_when_linked_is_not_stored() {
    let mut world = World::default().with("a", &["b"]).with("b", &[]);
    world.fails_linking.insert("a".to_string(), 1081);
    let mut cache = CrossBlockModuleCache::empty();

    let result = traverse(&mut cache, &world, "a", &mut Asked::default());

    assert_eq!(result.unwrap_err(), TraversalError::Rejected { key: key("a"), status_code: 1081 });
    assert!(cache.get_from_cross_block_module_cache(&key("a")).is_none());
    assert!(is_verified_in(&cache, "b"));
}

#[test]
fn dependencies_are_resolved_in_declaration_order() {
    let world = World::default()
        .with("a", &["z", "m", "b"])
        .with("z", &[])
        .with("m", &[])
        .with("b", &[]);
    let mut cache = CrossBlockModuleCache::empty();
    let mut asked = Asked::default();

    let module = traverse(&mut cache, &world, "a", &mut asked).unwrap();

    assert_eq!(asked.fetched, names(&["z", "m", "b"]));
    assert_eq!(module.linked_against, names(&["z", "m", "b"]));
}

#[test]
fn shared_dependency_is_verified_once() {
    let world = World::default()
        .with("a", &["b", "c"])
        .with("b", &["d"])
        .with("c", &["d"])
        .with("d", &[]);
    let mut cache = CrossBlockModuleCache::empty();
    let mut asked = Asked::default();

    traverse(&mut cache, &world, "a", &mut asked).unwrap();

    assert_eq!(asked.fetched, names(&["b", "d", "c"]));
    assert_eq!(asked.linked, names(&["d", "b", "c", "a"]));
}

#[test]
fn unverified_dependency_in_the_cache_is_not_fetched() {
    let world = World::default().with("a", &["b"]).with("b", &[]);
    let mut cache = CrossBlockModuleCache::empty();
    cache.store_to_cross_block_module_cache(key("b"), entry("b", &[]));
    let mut asked = Asked::default();

    traverse(&mut cache, &world, "a", &mut asked).unwrap();

    assert_eq!(asked.fetched, Vec::<String>::new());
    assert_eq!(asked.verified_locally, names(&["a", "b"]));
    assert!(is_verified_in(&cache, "b"));
}

#[test]
fn verified_dependency_in_the_cache_is_taken_as_it_is() {
    let world = World::default().with("a", &["b"]);
    let mut cache = CrossBlockModuleCache::empty();
    let ready = Arc::new(Module {
        name: "b".to_string(),
        made_from: Local { name: "b".to_string(), size: 1 },
        linked_against: vec![],
    });
    cache.store_to_cross_block_module_cache(
        key("b"),
        Arc::new(ModuleStorageEntry::from_state_value_and_verified_module(
            state_value("b", &["never_looked_at"]),
            ready.clone(),
        )),
    );
    let mut asked = Asked::default();

    let module = traverse(&mut cache, &world, "a", &mut asked).unwrap();

    assert_eq!(module.linked_against, names(&["b"]));
    assert_eq!(asked, Asked {
        verified_locally: names(&["a"]),
        fetched: vec![],
        linked: names(&["a"]),
    });
    let cached = cache.get_from_cross_block_module_cache(&key("b")).unwrap();
    assert!(Arc::ptr_eq(&cached.try_as_verified_module().unwrap(), &ready));
}

#[test]
fn verified_entry_replaces_the_unverified_one() {
    let world = World::default().with("a", &[]);
    let mut cache = CrossBlockModuleCache::empty();
    cache.store_to_cross_block_module_cache(key("a"), entry("a", &[]));
    assert!(!is_verified_in(&cache, "a"));

    traverse(&mut cache, &world, "a", &mut Asked::default()).unwrap();

    assert!(is_verified_in(&cache, "a"));
}

#[test]
fn walk_that_starts_with_a_module_visited_reports_a_cycle_at_once() {
    let world = World::default().with("a", &["b"]).with("b", &[]);
    let mut cache = CrossBlockModuleCache::empty();
    let inner: ModuleCache<Vec<u8>, Module> = ModuleCache::empty();
    let mut visited = VisitedSet::new();
    assert!(visited.insert(key("b")));
    assert!(!visited.insert(key("b")));
    assert!(visited.contains(&key("b")));
    assert!(!visited.contains(&key("a")));

    let first = inner.traverse(entry("a", &["b"]), &address(), "a", visited);
    let result = run(&mut cache, &world, first, &mut Asked::default());

    assert_eq!(result.unwrap_err(), TraversalError::CyclicDependency { key: key("a") });
}

#[test]
fn each_module_is_linked_from_what_its_own_verification_gave() {
    // The walk goes three modules deep and comes back; `run` checks at each
    // link that the module handed out is the one that was verified for it.
    let world = World::default()
        .with("top", &["left", "right"])
        .with("left", &["deep"])
        .with("deep", &[])
        .with("right", &["deep"]);
    let mut cache = CrossBlockModuleCache::empty();
    let mut asked = Asked::default();

    let module = traverse(&mut cache, &world, "top", &mut asked).unwrap();

    assert_eq!(module.made_from, Local { name: "top".to_string(), size: 3 });
    assert_eq!(asked.linked, names(&["deep", "left", "right", "top"]));
    let left = cache.get_from_cross_block_module_cache(&key("left")).unwrap();
    assert_eq!(
        left.try_as_verified_module().unwrap().made_from,
        Local { name: "left".to_string(), size: 4 }
    );
}

#[test]
fn module_that_state_holds_otherwise_can_be_stored_by_a_walk_that_fails() {
    // The caller hands in `a` with two dependencies; state holds an `a`
    // without any. The walk meets `a` again below `b`, reads it from state,
    // verifies and stores what it read, and then fails on the second
    // dependency of the `a` that it was handed.
    let world = World::default().with("a", &[]).with("b", &["a"]);
    let mut cache = CrossBlockModuleCache::empty();
    let mut asked = Asked::default();

    let first = cache.traverse(entry("a", &["b", "gone"]), &address(), "a");
    let result = run(&mut cache, &world, first, &mut asked);

    assert_eq!(result.unwrap_err(), TraversalError::Linker { key: key("gone") });
    assert_eq!(asked.fetched, names(&["b", "a", "gone"]));
    assert!(is_verified_in(&cache, "a"));
    assert!(is_verified_in(&cache, "b"));
}

#[test]
fn failed_walk_leaves_an_unverified_entry_of_its_module_as_it_was() {
    let world = World::default().with("a", &["gone"]);
    let mut cache = CrossBlockModuleCache::empty();
    let stored = entry("a", &["gone"]);
    cache.store_to_cross_block_module_cache(key("a"), stored.clone());

    let result = traverse(&mut cache, &world, "a", &mut Asked::default());

    assert_eq!(result.unwrap_err(), TraversalError::Linker { key: key("gone") });
    let found = cache.get_from_cross_block_module_cache(&key("a")).unwrap();
    assert!(Arc::ptr_eq(&found, &stored));
    assert!(!found.is_verified());
}
