//! The walk that verifies a module together with everything it depends on.
//!
//! The walk is depth first, in the order in which each module declares its
//! dependencies. It is written as a sequence of steps: each step decides what
//! has to be done next outside this crate (verify a module on its own, read a
//! dependency from state, verify a module against its verified dependencies)
//! and is resumed with the outcome. What the walk has in progress is a stack
//! of frames, one per module being verified, and the set of modules it has
//! descended into. A frame keeps what verifying its module on its own gave,
//! and hands it out when the module is to be verified against its
//! dependencies.

use crate::module_cache::ModuleCache;
use crate::module_entry::{
    keys_of, share, EntryView, ModuleStateValue, ModuleStorageEntry, StateValueView,
};
use crate::module_id::{AccountAddress, ModuleKey, StateKey};
use crate::visited::VisitedSet;
use std::sync::Arc;
use vstd::prelude::*;

verus! {

/// What a `TraversalError` stands for.
pub enum ErrorView {
    AddressNameMismatch { key: ModuleKey },
    Rejected { key: ModuleKey, status_code: u64 },
    StorageError,
    Linker { key: ModuleKey },
    CyclicDependency { key: ModuleKey },
}

/// Why a walk ended without a verified module.
#[derive(Debug, PartialEq, Eq)]
pub enum TraversalError {
    /// The module stored under `key` declares another address or name.
    AddressNameMismatch { key: StateKey },
    /// The module `key` could not be parsed or did not pass verification; the
    /// status code is the one that the verifier gave.
    Rejected { key: StateKey, status_code: u64 },
    /// Reading from state failed.
    StorageError,
    /// The dependency `key` is not in state.
    Linker { key: StateKey },
    /// While the dependencies of the module `key` were walked, one was met
    /// that the walk had already descended into.
    CyclicDependency { key: StateKey },
}

impl View for TraversalError {
    type V = ErrorView;

    open spec fn view(&self) -> ErrorView {
        match *self {
            TraversalError::AddressNameMismatch { key } => ErrorView::AddressNameMismatch {
                key: key@,
            },
            TraversalError::Rejected { key, status_code } => ErrorView::Rejected {
                key: key@,
                status_code,
            },
            TraversalError::StorageError => ErrorView::StorageError,
            TraversalError::Linker { key } => ErrorView::Linker { key: key@ },
            TraversalError::CyclicDependency { key } => ErrorView::CyclicDependency { key: key@ },
        }
    }
}

/// What a `Fetched` stands for.
pub enum FetchedView<P> {
    Found(StateValueView<P>),
    Missing,
    StorageError,
    Malformed(u64),
}

/// The outcome of reading a dependency from state.
#[derive(Debug)]
pub enum Fetched<P> {
    /// The module, parsed.
    Found(ModuleStateValue<P>),
    /// State holds nothing under the key.
    Missing,
    /// The read failed.
    StorageError,
    /// State holds bytes under the key that do not parse as a module; the
    /// status code says why.
    Malformed(u64),
}

impl<P> View for Fetched<P> {
    type V = FetchedView<P>;

    open spec fn view(&self) -> FetchedView<P> {
        match *self {
            Fetched::Found(value) => FetchedView::Found(value@),
            Fetched::Missing => FetchedView::Missing,
            Fetched::StorageError => FetchedView::StorageError,
            Fetched::Malformed(status_code) => FetchedView::Malformed(status_code),
        }
    }
}

/// The verified modules that a list of handles points to.
pub open spec fn modules_of<M>(handles: Seq<Arc<M>>) -> Seq<M> {
    handles.map_values(|handle: Arc<M>| *handle)
}

/// One module in the course of being verified. `L` is the type of a module
/// that was verified on its own.
pub struct FrameView<P, L, M> {
    /// The key under which the module will be stored.
    pub key: ModuleKey,
    /// The module as it was entered.
    pub entry: EntryView<P, M>,
    /// The module as verifying it on its own gave it; there is none before
    /// that, and none once it was handed out to be linked.
    pub local: Option<L>,
    /// How many of its dependencies are resolved.
    pub next: nat,
    /// The verified modules of those dependencies, in declaration order.
    pub verified: Seq<M>,
}

impl<P, L, M> FrameView<P, L, M> {
    pub open spec fn dependencies(self) -> Seq<ModuleKey> {
        self.entry.value.dependencies
    }

    /// A frame that was just entered: no dependency is resolved.
    pub open spec fn fresh(key: ModuleKey, entry: EntryView<P, M>) -> Self {
        FrameView { key, entry, local: None, next: 0, verified: Seq::empty() }
    }

    /// The frame with `local` for what verifying its module on its own gave.
    pub open spec fn with_local(self, local: Option<L>) -> Self {
        FrameView {
            key: self.key,
            entry: self.entry,
            local,
            next: self.next,
            verified: self.verified,
        }
    }

    /// The frame after its next dependency was resolved to `module`.
    pub open spec fn resolved(self, module: M) -> Self {
        FrameView {
            key: self.key,
            entry: self.entry,
            local: self.local,
            next: self.next + 1,
            verified: self.verified.push(module),
        }
    }

    pub open spec fn well_formed(self) -> bool {
        &&& self.entry.value.id == self.key
        &&& self.next <= self.dependencies().len()
        &&& self.verified.len() == self.next
    }

    /// Whether a dependency is left to resolve.
    pub open spec fn waiting(self) -> bool {
        self.next < self.dependencies().len()
    }

    /// The dependency that is resolved next.
    pub open spec fn pending(self) -> ModuleKey {
        self.dependencies()[self.next as int]
    }
}

/// A walk in progress.
pub struct TraversalView<P, L, M> {
    /// The modules whose verification waits for the current one, outermost
    /// first.
    pub parents: Seq<FrameView<P, L, M>>,
    /// The module whose dependencies are being resolved.
    pub current: FrameView<P, L, M>,
    /// The modules that the walk has descended into.
    pub visited: Set<ModuleKey>,
}

impl<P, L, M> TraversalView<P, L, M> {
    pub open spec fn well_formed(self) -> bool {
        &&& self.current.well_formed()
        &&& forall|i: int|
            0 <= i < self.parents.len() ==> (#[trigger] self.parents[i]).well_formed()
                && self.parents[i].waiting() && self.parents[i].local is Some
    }

    /// The walk with `local` for what verifying its current module on its own
    /// gave.
    pub open spec fn with_local(self, local: Option<L>) -> Self {
        TraversalView {
            parents: self.parents,
            current: self.current.with_local(local),
            visited: self.visited,
        }
    }

    /// The walk after the pending dependency of the current module was
    /// resolved to `module`.
    pub open spec fn resolved(self, module: M) -> Self {
        TraversalView {
            parents: self.parents,
            current: self.current.resolved(module),
            visited: self.visited,
        }
    }
}

/// What a `TraversalStep` stands for.
pub enum StepView<P, L, M> {
    VerifyLocally(TraversalView<P, L, M>),
    Fetch(TraversalView<P, L, M>),
    /// The walk, and the current module as verifying it on its own gave it.
    Link(TraversalView<P, L, M>, L),
    Done(Result<M, ErrorView>),
}

impl<P, L, M> StepView<P, L, M> {
    pub open spec fn well_formed(self) -> bool {
        match self {
            StepView::VerifyLocally(walk) => {
                &&& walk.well_formed()
                &&& walk.current.next == 0
                &&& walk.current.local is None
            },
            StepView::Fetch(walk) => {
                &&& walk.well_formed()
                &&& walk.current.waiting()
                &&& walk.current.local is Some
            },
            StepView::Link(walk, _) => {
                &&& walk.well_formed()
                &&& !walk.current.waiting()
                &&& walk.current.local is None
            },
            StepView::Done(_) => true,
        }
    }
}

/// The first step for a module `entry` that is to be stored under `key`: the
/// module must declare that address and name, and is then verified on its own.
pub open spec fn enter<P, L, M>(
    parents: Seq<FrameView<P, L, M>>,
    visited: Set<ModuleKey>,
    entry: EntryView<P, M>,
    key: ModuleKey,
) -> StepView<P, L, M> {
    if entry.value.id != key {
        StepView::Done(Err(ErrorView::AddressNameMismatch { key }))
    } else {
        StepView::VerifyLocally(
            TraversalView { parents, current: FrameView::fresh(key, entry), visited },
        )
    }
}

/// The step that descends into the pending dependency of the current module,
/// which is not verified yet and whose entry is `entry`. If the walk has
/// descended into that dependency before, this is a cycle, reported for the
/// current module.
pub open spec fn descend<P, L, M>(
    walk: TraversalView<P, L, M>,
    entry: EntryView<P, M>,
) -> StepView<P, L, M> {
    let dependency = walk.current.pending();
    if walk.visited.contains(dependency) {
        StepView::Done(Err(ErrorView::CyclicDependency { key: walk.current.key }))
    } else {
        enter(walk.parents.push(walk.current), walk.visited.insert(dependency), entry, dependency)
    }
}

/// The step that follows once the current module has passed verification on
/// its own or one of its dependencies was resolved: dependencies that the
/// cache holds verified are taken from it, one after the other; the first one
/// that it holds unverified is descended into; the first one that it does not
/// hold is read from state; and once none is left, the module is linked,
/// for which what verifying it on its own gave is handed out.
pub open spec fn advance<P, L, M>(
    cache: Map<ModuleKey, EntryView<P, M>>,
    walk: TraversalView<P, L, M>,
) -> StepView<P, L, M>
    decreases walk.current.dependencies().len() - walk.current.next,
{
    if !walk.current.waiting() {
        StepView::Link(walk.with_local(None), walk.current.local->0)
    } else {
        let dependency = walk.current.pending();
        if !cache.contains_key(dependency) {
            StepView::Fetch(walk)
        } else {
            match cache[dependency].module {
                Some(module) => advance(cache, walk.resolved(module)),
                None => descend(walk, cache[dependency]),
            }
        }
    }
}

/// The step after the current module was verified on its own, with `outcome`:
/// what the verification gave is kept with the module.
pub open spec fn after_local_verification<P, L, M>(
    cache: Map<ModuleKey, EntryView<P, M>>,
    walk: TraversalView<P, L, M>,
    outcome: Result<L, u64>,
) -> StepView<P, L, M> {
    match outcome {
        Ok(local) => advance(cache, walk.with_local(Some(local))),
        Err(status_code) => StepView::Done(
            Err(ErrorView::Rejected { key: walk.current.key, status_code }),
        ),
    }
}

/// The step after the pending dependency of the current module was read from
/// state, with `fetched`.
pub open spec fn after_fetch<P, L, M>(
    walk: TraversalView<P, L, M>,
    fetched: FetchedView<P>,
) -> StepView<P, L, M> {
    let dependency = walk.current.pending();
    match fetched {
        FetchedView::Found(value) => descend(walk, EntryView { value, module: None }),
        FetchedView::Missing => StepView::Done(Err(ErrorView::Linker { key: dependency })),
        FetchedView::StorageError => StepView::Done(Err(ErrorView::StorageError)),
        FetchedView::Malformed(status_code) => StepView::Done(
            Err(ErrorView::Rejected { key: dependency, status_code }),
        ),
    }
}

/// The entries of the cache after the current module was linked, with
/// `outcome`: on success the module is stored, verified, under its key.
pub open spec fn cache_after_link<P, L, M>(
    cache: Map<ModuleKey, EntryView<P, M>>,
    walk: TraversalView<P, L, M>,
    outcome: Result<M, u64>,
) -> Map<ModuleKey, EntryView<P, M>> {
    match outcome {
        Ok(module) => cache.insert(
            walk.current.key,
            EntryView { value: walk.current.entry.value, module: Some(module) },
        ),
        Err(_) => cache,
    }
}

/// The step after the current module was linked, with `outcome`: on success
/// the walk is done if no module waits for this one, and goes on with the
/// module that does if there is one.
pub open spec fn after_link<P, L, M>(
    cache: Map<ModuleKey, EntryView<P, M>>,
    walk: TraversalView<P, L, M>,
    outcome: Result<M, u64>,
) -> StepView<P, L, M> {
    match outcome {
        Ok(module) => if walk.parents.len() == 0 {
            StepView::Done(Ok(module))
        } else {
            advance(
                cache_after_link(cache, walk, outcome),
                TraversalView {
                    parents: walk.parents.drop_last(),
                    current: walk.parents.last().resolved(module),
                    visited: walk.visited,
                },
            )
        },
        Err(status_code) => StepView::Done(
            Err(ErrorView::Rejected { key: walk.current.key, status_code }),
        ),
    }
}

/// One module in the course of being verified.
struct Frame<P, L, M> {
    key: StateKey,
    entry: Arc<ModuleStorageEntry<P, M>>,
    local: Option<L>,
    next: usize,
    verified: Vec<Arc<M>>,
}

impl<P, L, M> View for Frame<P, L, M> {
    type V = FrameView<P, L, M>;

    closed spec fn view(&self) -> FrameView<P, L, M> {
        FrameView {
            key: self.key@,
            entry: (*self.entry)@,
            local: self.local,
            next: self.next as nat,
            verified: modules_of(self.verified@),
        }
    }
}

/// The frames that a list of frames stands for, in the same order.
spec fn frames_of<P, L, M>(frames: Seq<Frame<P, L, M>>) -> Seq<FrameView<P, L, M>> {
    frames.map_values(|frame: Frame<P, L, M>| frame@)
}

/// A walk in progress.
struct Traversal<P, L, M> {
    parents: Vec<Frame<P, L, M>>,
    current: Frame<P, L, M>,
    visited: VisitedSet,
}

impl<P, L, M> View for Traversal<P, L, M> {
    type V = TraversalView<P, L, M>;

    closed spec fn view(&self) -> TraversalView<P, L, M> {
        TraversalView {
            parents: frames_of(self.parents@),
            current: self.current@,
            visited: self.visited@,
        }
    }
}

/// A walk that waits for its current module to be verified on its own.
pub struct LocalVerification<P, L, M> {
    walk: Traversal<P, L, M>,
}

/// A walk that waits for a dependency of its current module to be read from
/// state.
pub struct DependencyFetch<P, L, M> {
    walk: Traversal<P, L, M>,
}

/// A walk that waits for its current module to be verified against its
/// dependencies, which are all verified.
pub struct Linking<P, L, M> {
    walk: Traversal<P, L, M>,
}

/// What a walk needs next, or how it ended.
pub enum TraversalStep<P, L, M> {
    /// Verify the module `entry()` on its own, then `resume`.
    VerifyLocally(LocalVerification<P, L, M>),
    /// Read the module `key()` from state, then `resume`.
    Fetch(DependencyFetch<P, L, M>),
    /// Verify the module, as verifying it on its own gave it, against
    /// `dependencies()`, then `resume`.
    Link(Linking<P, L, M>, L),
    /// The walk is over: the verified module, or why there is none.
    Done(Result<Arc<M>, TraversalError>),
}

impl<P, L, M> View for TraversalStep<P, L, M> {
    type V = StepView<P, L, M>;

    open spec fn view(&self) -> StepView<P, L, M> {
        match *self {
            TraversalStep::VerifyLocally(waiting) => StepView::VerifyLocally(waiting@),
            TraversalStep::Fetch(waiting) => StepView::Fetch(waiting@),
            TraversalStep::Link(waiting, local) => StepView::Link(waiting@, local),
            TraversalStep::Done(Ok(module)) => StepView::Done(Ok(*module)),
            TraversalStep::Done(Err(error)) => StepView::Done(Err(error@)),
        }
    }
}

impl<P, L, M> TraversalStep<P, L, M> {
    /// The invariant of the representation. Every step that this module hands
    /// out is well formed.
    pub open spec fn well_formed(&self) -> bool {
        self@.well_formed()
    }
}

/// Enters the module `entry`, which is to be stored under `key`.
fn enter_module<P, L, M>(
    parents: Vec<Frame<P, L, M>>,
    visited: VisitedSet,
    entry: Arc<ModuleStorageEntry<P, M>>,
    key: StateKey,
) -> (step: TraversalStep<P, L, M>)
    requires
        forall|i: int|
            0 <= i < parents.len() ==> (#[trigger] frames_of(parents@)[i]).well_formed()
                && frames_of(parents@)[i].waiting() && frames_of(parents@)[i].local is Some,
    ensures
        step.well_formed(),
        step@ == enter(frames_of(parents@), visited@, (*entry)@, key@),
{
    if !entry.state_value().self_id().same_as(&key) {
        return TraversalStep::Done(Err(TraversalError::AddressNameMismatch { key }));
    }
    let current = Frame { key, entry, local: None, next: 0, verified: Vec::new() };
    assert(current@.verified =~= Seq::<M>::empty());
    let walk = Traversal { parents, current, visited };
    TraversalStep::VerifyLocally(LocalVerification { walk })
}

/// Descends into the pending dependency of the current module of `walk`,
/// whose entry is `entry`.
fn descend_into<P, L, M>(
    walk: Traversal<P, L, M>,
    entry: Arc<ModuleStorageEntry<P, M>>,
) -> (step: TraversalStep<P, L, M>)
    requires
        walk@.well_formed(),
        walk@.current.waiting(),
        walk@.current.local is Some,
    ensures
        step.well_formed(),
        step@ == descend(walk@, (*entry)@),
{
    let Traversal { parents, current, visited } = walk;
    let mut parents = parents;
    let mut visited = visited;
    let ghost before = frames_of(parents@);
    let dependency = current.entry.state_value().immediate_dependencies()[current.next].duplicate();
    if !visited.insert(dependency.duplicate()) {
        return TraversalStep::Done(Err(TraversalError::CyclicDependency { key: current.key }));
    }
    let ghost frame = current@;
    parents.push(current);
    proof {
        assert(frames_of(parents@) =~= before.push(frame));
        assert forall|i: int| 0 <= i < parents.len() implies (#[trigger] frames_of(
            parents@,
        )[i]).well_formed() && frames_of(parents@)[i].waiting() && frames_of(
            parents@,
        )[i].local is Some by {
            if i < before.len() {
                assert(before[i].well_formed());
            }
        }
    }
    enter_module(parents, visited, entry, dependency)
}

/// Resolves the dependencies of the current module of `walk` for as long as
/// the cache holds them verified.
#[verifier::loop_isolation(false)]
fn advance_walk<P, L, M>(
    cache: &ModuleCache<P, M>,
    walk: Traversal<P, L, M>,
) -> (step: TraversalStep<P, L, M>)
    requires
        cache.well_formed(),
        walk@.well_formed(),
        walk@.current.local is Some,
    ensures
        step.well_formed(),
        step@ == advance(cache@.modules, walk@),
{
    let ghost start = walk@;
    let mut walk = walk;
    let entry = share(&walk.current.entry);
    let dependencies = entry.state_value().immediate_dependencies();
    while walk.current.next < dependencies.len()
        invariant
            cache.well_formed(),
            walk@.well_formed(),
            walk@.current.local is Some,
            (*entry)@ == walk@.current.entry,
            keys_of(dependencies@) == (*entry)@.value.dependencies,
            advance(cache@.modules, walk@) == advance(cache@.modules, start),
        decreases dependencies.len() - walk.current.next,
    {
        let dependency = &dependencies[walk.current.next];
        assert(walk@.current.waiting());
        assert(dependency@ == walk@.current.pending());
        match cache.get(dependency) {
            None => {
                return TraversalStep::Fetch(DependencyFetch { walk });
            },
            Some(cached) => {
                match cached.try_as_verified_module() {
                    None => {
                        return descend_into(walk, cached);
                    },
                    Some(module) => {
                        let ghost before = walk@;
                        let ghost handles = walk.current.verified@;
                        walk.current.verified.push(module);
                        walk.current.next = walk.current.next + 1;
                        proof {
                            assert(modules_of(walk.current.verified@) =~= modules_of(handles).push(
                                *module,
                            ));
                            assert(walk@ == before.resolved(*module));
                        }
                    },
                }
            },
        }
    }
    let Traversal { parents, current, visited } = walk;
    let Frame { key, entry, local, next, verified } = current;
    match local {
        Some(local) => {
            let current = Frame { key, entry, local: None, next, verified };
            TraversalStep::Link(Linking { walk: Traversal { parents, current, visited } }, local)
        },
        None => unreached(),
    }
}

impl<P, M> ModuleCache<P, M> {
    /// Starts the walk that verifies the module `entry`, which is to be stored
    /// under `address` and `module_name`, and everything it depends on.
    /// `visited` holds the modules that the walk is to take as descended into
    /// already; it is empty for a walk of its own.
    ///
    /// The cache is read and written when the walk is resumed: each `resume`
    /// takes it. The walk is meant to have the cache to itself until it is
    /// done.
    pub fn traverse<L>(
        &self,
        entry: Arc<ModuleStorageEntry<P, M>>,
        address: &AccountAddress,
        module_name: &str,
        visited: VisitedSet,
    ) -> (step: TraversalStep<P, L, M>)
        ensures
            step.well_formed(),
            step@ == enter::<P, L, M>(
                Seq::empty(),
                visited@,
                (*entry)@,
                ModuleKey { address: address@, name: module_name@ },
            ),
    {
        let parents: Vec<Frame<P, L, M>> = Vec::new();
        assert(frames_of(parents@) =~= Seq::<FrameView<P, L, M>>::empty());
        enter_module(parents, visited, entry, StateKey::module(address, module_name))
    }
}

impl<P, L, M> View for LocalVerification<P, L, M> {
    type V = TraversalView<P, L, M>;

    closed spec fn view(&self) -> TraversalView<P, L, M> {
        self.walk@
    }
}

impl<P, L, M> LocalVerification<P, L, M> {
    pub open spec fn well_formed(&self) -> bool {
        StepView::VerifyLocally(self@).well_formed()
    }

    /// The module to verify.
    pub fn entry(&self) -> (entry: &Arc<ModuleStorageEntry<P, M>>)
        ensures
            (**entry)@ == self@.current.entry,
    {
        &self.walk.current.entry
    }

    /// Goes on with the walk after the module `entry()` was verified on its
    /// own: what the verification gave if the module passed, the verifier's
    /// status code if it did not.
    pub fn resume(
        self,
        cache: &ModuleCache<P, M>,
        outcome: Result<L, u64>,
    ) -> (step: TraversalStep<P, L, M>)
        requires
            self.well_formed(),
            cache.well_formed(),
        ensures
            step.well_formed(),
            step@ == after_local_verification(cache@.modules, self@, outcome),
    {
        match outcome {
            Ok(local) => {
                let Traversal { parents, current, visited } = self.walk;
                let Frame { key, entry, local: _, next, verified } = current;
                let current = Frame { key, entry, local: Some(local), next, verified };
                advance_walk(cache, Traversal { parents, current, visited })
            },
            Err(status_code) => {
                let Traversal { parents, current, visited } = self.walk;
                TraversalStep::Done(Err(TraversalError::Rejected { key: current.key, status_code }))
            },
        }
    }
}

impl<P, L, M> View for DependencyFetch<P, L, M> {
    type V = TraversalView<P, L, M>;

    closed spec fn view(&self) -> TraversalView<P, L, M> {
        self.walk@
    }
}

impl<P, L, M> DependencyFetch<P, L, M> {
    pub open spec fn well_formed(&self) -> bool {
        StepView::Fetch(self@).well_formed()
    }

    /// The key of the module to read.
    pub fn key(&self) -> (key: &StateKey)
        requires
            self.well_formed(),
        ensures
            key@ == self@.current.pending(),
    {
        &self.walk.current.entry.state_value().immediate_dependencies()[self.walk.current.next]
    }

    /// Goes on with the walk after the module `key()` was read from state.
    pub fn resume(self, fetched: Fetched<P>) -> (step: TraversalStep<P, L, M>)
        requires
            self.well_formed(),
        ensures
            step.well_formed(),
            step@ == after_fetch(self@, fetched@),
    {
        match fetched {
            Fetched::Found(value) => {
                let entry = Arc::new(ModuleStorageEntry::from_state_value(value));
                descend_into(self.walk, entry)
            },
            Fetched::Missing => {
                let key = self.key().duplicate();
                TraversalStep::Done(Err(TraversalError::Linker { key }))
            },
            Fetched::StorageError => TraversalStep::Done(Err(TraversalError::StorageError)),
            Fetched::Malformed(status_code) => {
                let key = self.key().duplicate();
                TraversalStep::Done(Err(TraversalError::Rejected { key, status_code }))
            },
        }
    }
}

impl<P, L, M> View for Linking<P, L, M> {
    type V = TraversalView<P, L, M>;

    closed spec fn view(&self) -> TraversalView<P, L, M> {
        self.walk@
    }
}

/// The verified module that an outcome of linking holds, or its status code.
pub open spec fn linked<M>(outcome: Result<Arc<M>, u64>) -> Result<M, u64> {
    match outcome {
        Ok(module) => Ok(*module),
        Err(status_code) => Err(status_code),
    }
}

impl<P, L, M> Linking<P, L, M> {
    pub open spec fn well_formed(&self) -> bool {
        &&& self@.well_formed()
        &&& !self@.current.waiting()
        &&& self@.current.local is None
    }

    /// The module to verify.
    pub fn entry(&self) -> (entry: &Arc<ModuleStorageEntry<P, M>>)
        ensures
            (**entry)@ == self@.current.entry,
    {
        &self.walk.current.entry
    }

    /// The verified modules of its dependencies, in declaration order.
    pub fn dependencies(&self) -> (dependencies: &Vec<Arc<M>>)
        ensures
            modules_of(dependencies@) == self@.current.verified,
    {
        &self.walk.current.verified
    }

    /// Goes on with the walk after the module `entry()` was verified against
    /// `dependencies()`: the verified module if it passed, the verifier's
    /// status code if it did not. A module that passed is stored in the cache.
    pub fn resume(self, cache: &mut ModuleCache<P, M>, outcome: Result<Arc<M>, u64>) -> (step:
        TraversalStep<P, L, M>)
        requires
            self.well_formed(),
            old(cache).well_formed(),
        ensures
            step.well_formed(),
            final(cache).well_formed(),
            final(cache)@.invalidated == old(cache)@.invalidated,
            final(cache)@.modules == cache_after_link(old(cache)@.modules, self@, linked(outcome)),
            step@ == after_link(old(cache)@.modules, self@, linked(outcome)),
    {
        let Traversal { parents, current, visited } = self.walk;
        match outcome {
            Err(status_code) => TraversalStep::Done(
                Err(TraversalError::Rejected { key: current.key, status_code }),
            ),
            Ok(module) => {
                let verified = Arc::new(current.entry.make_verified(share(&module)));
                cache.insert(current.key, verified);
                let mut parents = parents;
                let ghost frames = frames_of(parents@);
                match parents.pop() {
                    None => TraversalStep::Done(Ok(module)),
                    Some(parent) => {
                        let mut parent = parent;
                        let ghost before = parent@;
                        let ghost handles = parent.verified@;
                        proof {
                            assert(before == frames.last());
                            assert(frames[frames.len() - 1].well_formed());
                            assert(frames_of(parents@) =~= frames.drop_last());
                            assert forall|i: int| 0 <= i < parents.len() implies (
                            #[trigger] frames_of(parents@)[i]).well_formed() && frames_of(
                                parents@,
                            )[i].waiting() by {
                                assert(frames[i].well_formed());
                            }
                        }
                        let waiting_for = parent.entry.state_value().immediate_dependencies().len();
                        assert(parent.next < waiting_for);
                        parent.verified.push(share(&module));
                        parent.next = parent.next + 1;
                        proof {
                            assert(modules_of(parent.verified@) =~= modules_of(handles).push(
                                *module,
                            ));
                            assert(parent@ == before.resolved(*module));
                        }
                        advance_walk(cache, Traversal { parents, current: parent, visited })
                    },
                }
            },
        }
    }
}

} // verus!
