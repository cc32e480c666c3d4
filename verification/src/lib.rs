//! A cache of verified smart-contract modules and the execution environment
//! they are verified under.
//!
//! Modules are verified against a configuration (the *environment*); a verified
//! module can be reused for as long as that configuration stays the same and the
//! module's bytes on chain do not change. This crate holds the decisions of that
//! scheme: how an environment is derived from what a state snapshot holds and
//! how it is fingerprinted, how a module and its dependencies are walked and
//! committed to the cache, how the cache is invalidated and flushed, and how
//! the framework's own modules are preloaded.
//!
//! Reading state, deserialising and verifying bytecode are done by the caller;
//! the functions here take what those steps returned.
//!
//! Two smaller things stand beside the cache: which type tags are valid, and
//! the configuration of the NFT metadata crawler.

pub mod cached_environment;
pub mod crawler_config;
pub mod cross_block;
pub mod environment;
pub mod features;
pub mod fingerprint;
pub mod framework;
pub mod module_cache;
pub mod module_entry;
pub mod module_id;
pub mod module_map;
pub mod traversal;
pub mod type_tag;
pub mod visited;
pub mod walk_laws;
