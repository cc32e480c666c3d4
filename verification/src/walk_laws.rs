//! What a walk over a module's dependencies guarantees from its start to its
//! end.
//!
//! The laws hold of a walk that has the cache to itself. What a walk that
//! succeeds has stored holds of every such walk. What a walk that fails has
//! not stored holds where the module that it is to verify does not change
//! under it: whenever that module is read from state in the course of the
//! walk, it declares the dependencies that the walk started with. Nothing is
//! asked of any other module.

use crate::module_entry::{EntryView, StateValueView};
use crate::module_id::ModuleKey;
use crate::traversal::{
    advance, after_fetch, after_link, after_local_verification, cache_after_link, descend, enter,
    FetchedView, FrameView, StepView, TraversalView,
};
use vstd::prelude::*;

verus! {

/// What a walk starts from.
pub struct WalkContext<P, M> {
    /// The key of the module that the walk is to verify.
    pub root: ModuleKey,
    /// The entries of the cache when the walk starts.
    pub initial: Map<ModuleKey, EntryView<P, M>>,
    /// The dependencies that the module that the walk is to verify declares
    /// whenever it is read in the course of the walk, where that is known:
    /// where the module is known not to change under the walk.
    pub dependencies: Option<Seq<ModuleKey>>,
}

/// Whether `cache` holds a verified module under `key`.
pub open spec fn verified_in<P, M>(cache: Map<ModuleKey, EntryView<P, M>>, key: ModuleKey) -> bool {
    cache.contains_key(key) && cache[key].is_verified()
}

/// What `cache` holds under `key`, if anything.
pub open spec fn slot<P, M>(cache: Map<ModuleKey, EntryView<P, M>>, key: ModuleKey) -> Option<
    EntryView<P, M>,
> {
    if cache.contains_key(key) {
        Some(cache[key])
    } else {
        None
    }
}

/// Whether the walk is known to run while the module that it is to verify
/// does not change.
pub open spec fn stable<P, M>(context: WalkContext<P, M>) -> bool {
    context.dependencies is Some
}

/// Whether a parsed module, if it is the module that the walk is to verify,
/// declares the dependencies that this module is known to declare. Of any
/// other module this asks nothing, and it asks nothing where nothing is known.
pub open spec fn agrees<P, M>(context: WalkContext<P, M>, value: StateValueView<P>) -> bool {
    stable(context) && value.id == context.root ==> value.dependencies
        == context.dependencies->0
}

/// Where the module to verify is known not to change: whether `cache` holds
/// for it what the cache held when the walk started.
pub open spec fn untouched<P, M>(
    context: WalkContext<P, M>,
    cache: Map<ModuleKey, EntryView<P, M>>,
) -> bool {
    stable(context) ==> slot(cache, context.root) == slot(context.initial, context.root)
}

/// Whether what `cache` holds for the module that the walk is to verify, if
/// it holds it unverified, declares the dependencies that the walk started
/// with. Of the other entries this asks nothing.
pub open spec fn agrees_with_state<P, M>(
    context: WalkContext<P, M>,
    cache: Map<ModuleKey, EntryView<P, M>>,
) -> bool {
    cache.contains_key(context.root) && !cache[context.root].is_verified() ==> agrees(
        context,
        cache[context.root].value,
    )
}

/// Whether every dependency of every verified module in `cache` is in it,
/// verified.
pub open spec fn closed<P, M>(cache: Map<ModuleKey, EntryView<P, M>>) -> bool {
    forall|key: ModuleKey, j: int|
        #![trigger verified_in(cache, key), cache[key].value.dependencies[j]]
        verified_in(cache, key) && 0 <= j < cache[key].value.dependencies.len() ==> verified_in(
            cache,
            cache[key].value.dependencies[j],
        )
}

/// Whether every dependency of the module that `cache` holds under `key` is
/// in the cache, verified.
pub open spec fn dependencies_verified<P, M>(
    cache: Map<ModuleKey, EntryView<P, M>>,
    key: ModuleKey,
) -> bool {
    forall|j: int|
        0 <= j < cache[key].value.dependencies.len() ==> verified_in(
            cache,
            #[trigger] cache[key].value.dependencies[j],
        )
}

/// The number of modules whose verification waits for the current one.
pub open spec fn depth<P, L, M>(walk: TraversalView<P, L, M>) -> int {
    walk.parents.len() as int
}

/// The frames of a walk, outermost first; the current module is the last.
pub open spec fn frame_at<P, L, M>(walk: TraversalView<P, L, M>, i: int) -> FrameView<P, L, M> {
    if 0 <= i < walk.parents.len() {
        walk.parents[i]
    } else {
        walk.current
    }
}

/// Each module that waits, waits for the one above it.
pub open spec fn linked_frames<P, L, M>(walk: TraversalView<P, L, M>) -> bool {
    forall|i: int|
        0 <= i < depth(walk) ==> (#[trigger] frame_at(walk, i + 1)).key == frame_at(
            walk,
            i,
        ).pending()
}

/// Every module but the outermost was descended into.
pub open spec fn visited_frames<P, L, M>(walk: TraversalView<P, L, M>) -> bool {
    forall|i: int|
        1 <= i <= depth(walk) ==> walk.visited.contains((#[trigger] frame_at(walk, i)).key)
}

/// Every module in progress that is the module to verify declares the
/// dependencies that the walk started with.
pub open spec fn agreeing_frames<P, L, M>(
    context: WalkContext<P, M>,
    walk: TraversalView<P, L, M>,
) -> bool {
    forall|i: int|
        0 <= i <= depth(walk) ==> agrees(context, (#[trigger] frame_at(walk, i)).entry.value)
}

/// Every dependency that a module in progress has resolved is in the cache,
/// verified.
pub open spec fn resolved_in_cache<P, L, M>(
    cache: Map<ModuleKey, EntryView<P, M>>,
    walk: TraversalView<P, L, M>,
) -> bool {
    forall|i: int, j: int|
        #![trigger frame_at(walk, i).dependencies()[j]]
        0 <= i <= depth(walk) && 0 <= j < frame_at(walk, i).next ==> verified_in(
            cache,
            frame_at(walk, i).dependencies()[j],
        )
}

/// No module that was descended into and is in progress is in the cache as
/// verified.
pub open spec fn unverified_frames<P, L, M>(
    cache: Map<ModuleKey, EntryView<P, M>>,
    walk: TraversalView<P, L, M>,
) -> bool {
    forall|i: int| 1 <= i <= depth(walk) ==> !verified_in(cache, (#[trigger] frame_at(walk, i)).key)
}

/// The modules that were descended into and are in progress differ from each
/// other.
pub open spec fn distinct_frames<P, L, M>(walk: TraversalView<P, L, M>) -> bool {
    forall|i: int, k: int|
        1 <= i < k <= depth(walk) ==> (#[trigger] frame_at(walk, i)).key != (#[trigger] frame_at(
            walk,
            k,
        )).key
}

/// A module in progress that is the outermost module once more has resolved
/// no more dependencies than the outermost one.
pub open spec fn behind_the_root<P, L, M>(root: ModuleKey, walk: TraversalView<P, L, M>) -> bool {
    forall|k: int|
        1 <= k <= depth(walk) && (#[trigger] frame_at(walk, k)).key == root ==> frame_at(
            walk,
            k,
        ).next <= frame_at(walk, 0).next
}

/// What holds of a walk in progress and the cache it works on.
pub open spec fn frames_invariant<P, L, M>(
    context: WalkContext<P, M>,
    cache: Map<ModuleKey, EntryView<P, M>>,
    walk: TraversalView<P, L, M>,
) -> bool {
    &&& walk.well_formed()
    &&& frame_at(walk, 0).key == context.root
    &&& linked_frames(walk)
    &&& visited_frames(walk)
    &&& agreeing_frames(context, walk)
    &&& resolved_in_cache(cache, walk)
    &&& unverified_frames(cache, walk)
    &&& distinct_frames(walk)
    &&& stable(context) ==> behind_the_root(context.root, walk)
}

/// What holds of the cache during a walk, whatever the walk is at.
pub open spec fn cache_invariant<P, M>(
    context: WalkContext<P, M>,
    cache: Map<ModuleKey, EntryView<P, M>>,
) -> bool {
    &&& agrees_with_state(context, cache)
    &&& closed(context.initial) ==> closed(cache)
}

/// What holds of a walk and the cache it works on, from its first step to its
/// last.
///
/// A walk that succeeds has stored the outermost module, verified. Where
/// that module is known not to change under the walk, the cache holds for it,
/// while the walk is in progress, what it held when the walk started: a walk
/// that fails has then stored nothing for it.
pub open spec fn walk_invariant<P, L, M>(
    context: WalkContext<P, M>,
    cache: Map<ModuleKey, EntryView<P, M>>,
    step: StepView<P, L, M>,
) -> bool {
    &&& cache_invariant(context, cache)
    &&& step.well_formed()
    &&& match step {
        StepView::VerifyLocally(walk) => {
            &&& frames_invariant(context, cache, walk)
            &&& untouched(context, cache)
        },
        StepView::Fetch(walk) => {
            &&& frames_invariant(context, cache, walk)
            &&& untouched(context, cache)
            &&& !verified_in(cache, walk.current.pending())
        },
        StepView::Link(walk, _) => {
            &&& frames_invariant(context, cache, walk)
            &&& untouched(context, cache)
        },
        StepView::Done(Ok(module)) => {
            &&& cache.contains_key(context.root)
            &&& cache[context.root].module == Some(module)
            &&& dependencies_verified(cache, context.root)
        },
        StepView::Done(Err(_)) => untouched(context, cache),
    }
}

/// The invariant is kept when the pending dependency of the current module is
/// taken from the cache.
proof fn lemma_resolved<P, L, M>(
    context: WalkContext<P, M>,
    cache: Map<ModuleKey, EntryView<P, M>>,
    walk: TraversalView<P, L, M>,
    module: M,
)
    requires
        frames_invariant(context, cache, walk),
        walk.current.waiting(),
        verified_in(cache, walk.current.pending()),
    ensures
        frames_invariant(context, cache, walk.resolved(module)),
{
    let after = walk.resolved(module);
    let top = depth(walk);
    assert(depth(after) == top);
    assert(frame_at(after, top) == walk.current.resolved(module));
    assert forall|i: int| 0 <= i < top implies frame_at(after, i) == frame_at(walk, i) by {}
    assert(after.well_formed()) by {
        assert forall|i: int| 0 <= i < after.parents.len() implies (
        #[trigger] after.parents[i]).well_formed() && after.parents[i].waiting()
            && after.parents[i].local is Some by {
            assert(walk.parents[i].well_formed());
        }
    }
    assert(frame_at(after, 0).key == context.root) by {
        assert(frame_at(after, 0).key == frame_at(walk, 0).key);
    }
    assert(linked_frames(after)) by {
        assert forall|i: int| 0 <= i < depth(after) implies (#[trigger] frame_at(after, i + 1)).key
            == frame_at(after, i).pending() by {
            assert(frame_at(walk, i + 1).key == frame_at(walk, i).pending());
            assert(frame_at(after, i) == frame_at(walk, i));
            assert(frame_at(after, i + 1).key == frame_at(walk, i + 1).key);
        }
    }
    assert(visited_frames(after)) by {
        assert forall|i: int| 1 <= i <= depth(after) implies after.visited.contains(
            (#[trigger] frame_at(after, i)).key,
        ) by {
            assert(frame_at(after, i).key == frame_at(walk, i).key);
        }
    }
    assert(agreeing_frames(context, after)) by {
        assert forall|i: int| 0 <= i <= depth(after) implies agrees(
            context,
            (#[trigger] frame_at(after, i)).entry.value,
        ) by {
            assert(frame_at(after, i).entry == frame_at(walk, i).entry);
        }
    }
    assert(resolved_in_cache(cache, after)) by {
        assert forall|i: int, j: int|
            #![trigger frame_at(after, i).dependencies()[j]]
            0 <= i <= depth(after) && 0 <= j < frame_at(after, i).next implies verified_in(
            cache,
            frame_at(after, i).dependencies()[j],
        ) by {
            assert(frame_at(after, i).dependencies() == frame_at(walk, i).dependencies());
            if i == top && j == walk.current.next {
                assert(frame_at(after, i).dependencies()[j] == walk.current.pending());
            } else {
                assert(verified_in(cache, frame_at(walk, i).dependencies()[j]));
            }
        }
    }
    assert(unverified_frames(cache, after)) by {
        assert forall|i: int| 1 <= i <= depth(after) implies !verified_in(
            cache,
            (#[trigger] frame_at(after, i)).key,
        ) by {
            assert(frame_at(after, i).key == frame_at(walk, i).key);
        }
    }
    assert(distinct_frames(after)) by {
        assert forall|i: int, k: int| 1 <= i < k <= depth(after) implies (#[trigger] frame_at(
            after,
            i,
        )).key != (#[trigger] frame_at(after, k)).key by {
            assert(frame_at(after, i).key == frame_at(walk, i).key);
            assert(frame_at(after, k).key == frame_at(walk, k).key);
        }
    }
    assert(stable(context) ==> behind_the_root(context.root, after)) by {
        if stable(context) {
        assert forall|k: int|
            1 <= k <= depth(after) && (#[trigger] frame_at(after, k)).key
                == context.root implies frame_at(after, k).next <= frame_at(after, 0).next by {
            assert(frame_at(after, k).key == frame_at(walk, k).key);
            assert(frame_at(walk, k).next <= frame_at(walk, 0).next);
            if k == top {
                lemma_not_level_with_the_root(context, cache, walk);
            }
        }
    }
    }
}

/// A current module that is the outermost module once more, and whose pending
/// dependency the cache holds verified, has resolved fewer dependencies than
/// the outermost one: the dependency that the outermost one waits for is in
/// progress, and so not verified.
proof fn lemma_not_level_with_the_root<P, L, M>(
    context: WalkContext<P, M>,
    cache: Map<ModuleKey, EntryView<P, M>>,
    walk: TraversalView<P, L, M>,
)
    requires
        stable(context),
        frames_invariant(context, cache, walk),
        depth(walk) >= 1,
        walk.current.key == context.root,
        walk.current.waiting(),
        verified_in(cache, walk.current.pending()),
    ensures
        walk.current.next < frame_at(walk, 0).next,
{
    let top = depth(walk);
    let root = frame_at(walk, 0);
    assert(frame_at(walk, top) == walk.current);
    assert(frame_at(walk, top).next <= root.next);
    if walk.current.next == root.next {
        assert(walk.parents[0].well_formed());
        assert(agrees(context, frame_at(walk, 0).entry.value));
        assert(agrees(context, frame_at(walk, top).entry.value));
        assert(walk.current.dependencies() == root.dependencies());
        assert(frame_at(walk, 0int + 1).key == root.pending());
        assert(!verified_in(cache, frame_at(walk, 1).key));
    }
}

/// The invariant does not look at what verifying the current module on its
/// own gave.
proof fn lemma_local_changed<P, L, M>(
    context: WalkContext<P, M>,
    cache: Map<ModuleKey, EntryView<P, M>>,
    walk: TraversalView<P, L, M>,
    local: Option<L>,
)
    requires
        frames_invariant(context, cache, walk),
    ensures
        frames_invariant(context, cache, walk.with_local(local)),
{
    let after = walk.with_local(local);
    let top = depth(walk);
    assert(depth(after) == top);
    assert(frame_at(after, top) == walk.current.with_local(local));
    assert(frame_at(walk, top) == walk.current);
    assert forall|i: int| 0 <= i < top implies frame_at(after, i) == frame_at(walk, i) by {}
    assert(after.well_formed());
    assert(frame_at(after, 0).key == context.root) by {
        assert(frame_at(after, 0).key == frame_at(walk, 0).key);
    }
    assert(linked_frames(after)) by {
        assert forall|i: int| 0 <= i < depth(after) implies (#[trigger] frame_at(after, i + 1)).key
            == frame_at(after, i).pending() by {
            assert(frame_at(walk, i + 1).key == frame_at(walk, i).pending());
            assert(frame_at(after, i) == frame_at(walk, i));
            assert(frame_at(after, i + 1).key == frame_at(walk, i + 1).key);
        }
    }
    assert(visited_frames(after)) by {
        assert forall|i: int| 1 <= i <= depth(after) implies after.visited.contains(
            (#[trigger] frame_at(after, i)).key,
        ) by {
            assert(frame_at(after, i).key == frame_at(walk, i).key);
        }
    }
    assert(agreeing_frames(context, after)) by {
        assert forall|i: int| 0 <= i <= depth(after) implies agrees(
            context,
            (#[trigger] frame_at(after, i)).entry.value,
        ) by {
            assert(frame_at(after, i).entry == frame_at(walk, i).entry);
        }
    }
    assert(resolved_in_cache(cache, after)) by {
        assert forall|i: int, j: int|
            #![trigger frame_at(after, i).dependencies()[j]]
            0 <= i <= depth(after) && 0 <= j < frame_at(after, i).next implies verified_in(
            cache,
            frame_at(after, i).dependencies()[j],
        ) by {
            assert(frame_at(after, i).dependencies() == frame_at(walk, i).dependencies());
            assert(frame_at(after, i).next == frame_at(walk, i).next);
            assert(verified_in(cache, frame_at(walk, i).dependencies()[j]));
        }
    }
    assert(unverified_frames(cache, after)) by {
        assert forall|i: int| 1 <= i <= depth(after) implies !verified_in(
            cache,
            (#[trigger] frame_at(after, i)).key,
        ) by {
            assert(frame_at(after, i).key == frame_at(walk, i).key);
        }
    }
    assert(distinct_frames(after)) by {
        assert forall|i: int, k: int| 1 <= i < k <= depth(after) implies (#[trigger] frame_at(
            after,
            i,
        )).key != (#[trigger] frame_at(after, k)).key by {
            assert(frame_at(after, i).key == frame_at(walk, i).key);
            assert(frame_at(after, k).key == frame_at(walk, k).key);
        }
    }
    assert(stable(context) ==> behind_the_root(context.root, after)) by {
        if stable(context) {
        assert forall|k: int|
            1 <= k <= depth(after) && (#[trigger] frame_at(after, k)).key
                == context.root implies frame_at(after, k).next <= frame_at(after, 0).next by {
            assert(frame_at(after, k).key == frame_at(walk, k).key);
            assert(frame_at(after, k).next == frame_at(walk, k).next);
            assert(frame_at(after, 0).next == frame_at(walk, 0).next);
            assert(frame_at(walk, k).next <= frame_at(walk, 0).next);
        }
    }
    }
}

/// The invariant is kept when the walk descends into the pending dependency
/// of its current module.
proof fn lemma_descend<P, L, M>(
    context: WalkContext<P, M>,
    cache: Map<ModuleKey, EntryView<P, M>>,
    walk: TraversalView<P, L, M>,
    entry: EntryView<P, M>,
)
    requires
        cache_invariant(context, cache),
        frames_invariant(context, cache, walk),
        untouched(context, cache),
        walk.current.waiting(),
        walk.current.local is Some,
        !verified_in(cache, walk.current.pending()),
        entry.value.id == walk.current.pending() ==> agrees(context, entry.value),
    ensures
        walk_invariant(context, cache, descend(walk, entry)),
{
    let dependency = walk.current.pending();
    let top = depth(walk);
    if !walk.visited.contains(dependency) && entry.value.id == dependency {
        let after = TraversalView {
            parents: walk.parents.push(walk.current),
            current: FrameView::fresh(dependency, entry),
            visited: walk.visited.insert(dependency),
        };
        assert(descend(walk, entry) == StepView::VerifyLocally(after));
        assert(depth(after) == top + 1);
        assert forall|i: int| 0 <= i <= top implies frame_at(after, i) == frame_at(walk, i) by {}
        assert(frame_at(after, top + 1) == after.current);
        assert(after.well_formed()) by {
            assert forall|i: int| 0 <= i < after.parents.len() implies (
            #[trigger] after.parents[i]).well_formed() && after.parents[i].waiting()
                && after.parents[i].local is Some by {
                if i < top {
                    assert(walk.parents[i].well_formed());
                }
            }
        }
        assert(frame_at(after, 0).key == context.root) by {
            assert(frame_at(after, 0) == frame_at(walk, 0));
        }
        assert(linked_frames(after)) by {
            assert forall|i: int| 0 <= i < depth(after) implies (#[trigger] frame_at(
                after,
                i + 1,
            )).key == frame_at(after, i).pending() by {
                assert(frame_at(after, i) == frame_at(walk, i));
                if i < top {
                    assert(frame_at(walk, i + 1).key == frame_at(walk, i).pending());
                    assert(frame_at(after, i + 1) == frame_at(walk, i + 1));
                }
            }
        }
        assert(visited_frames(after)) by {
            assert forall|i: int| 1 <= i <= depth(after) implies after.visited.contains(
                (#[trigger] frame_at(after, i)).key,
            ) by {
                if i <= top {
                    assert(frame_at(after, i) == frame_at(walk, i));
                    assert(walk.visited.contains(frame_at(walk, i).key));
                }
            }
        }
        assert(agreeing_frames(context, after)) by {
            assert forall|i: int| 0 <= i <= depth(after) implies agrees(
                context,
                (#[trigger] frame_at(after, i)).entry.value,
            ) by {
                if i <= top {
                    assert(frame_at(after, i) == frame_at(walk, i));
                }
            }
        }
        assert(resolved_in_cache(cache, after)) by {
            assert forall|i: int, j: int|
                #![trigger frame_at(after, i).dependencies()[j]]
                0 <= i <= depth(after) && 0 <= j < frame_at(after, i).next implies verified_in(
                cache,
                frame_at(after, i).dependencies()[j],
            ) by {
                assert(i <= top);
                assert(frame_at(after, i) == frame_at(walk, i));
                assert(verified_in(cache, frame_at(walk, i).dependencies()[j]));
            }
        }
        assert(unverified_frames(cache, after)) by {
            assert forall|i: int| 1 <= i <= depth(after) implies !verified_in(
                cache,
                (#[trigger] frame_at(after, i)).key,
            ) by {
                if i <= top {
                    assert(frame_at(after, i) == frame_at(walk, i));
                }
            }
        }
        assert(distinct_frames(after)) by {
            assert forall|i: int, k: int| 1 <= i < k <= depth(after) implies (#[trigger] frame_at(
                after,
                i,
            )).key != (#[trigger] frame_at(after, k)).key by {
                assert(frame_at(after, i) == frame_at(walk, i));
                if k <= top {
                    assert(frame_at(after, k) == frame_at(walk, k));
                } else {
                    assert(walk.visited.contains(frame_at(walk, i).key));
                }
            }
        }
        assert(stable(context) ==> behind_the_root(context.root, after)) by {
        if stable(context) {
            assert forall|k: int|
                1 <= k <= depth(after) && (#[trigger] frame_at(after, k)).key
                    == context.root implies frame_at(after, k).next <= frame_at(after, 0).next by {
                assert(frame_at(after, 0) == frame_at(walk, 0));
                if k <= top {
                    assert(frame_at(after, k) == frame_at(walk, k));
                }
            }
        }
    }
    }
}

/// The invariant is kept while the walk resolves the dependencies of its
/// current module.
proof fn lemma_advance<P, L, M>(
    context: WalkContext<P, M>,
    cache: Map<ModuleKey, EntryView<P, M>>,
    walk: TraversalView<P, L, M>,
)
    requires
        cache_invariant(context, cache),
        frames_invariant(context, cache, walk),
        untouched(context, cache),
        walk.current.local is Some,
    ensures
        walk_invariant(context, cache, advance(cache, walk)),
    decreases walk.current.dependencies().len() - walk.current.next,
{
    if !walk.current.waiting() {
        lemma_local_changed(context, cache, walk, None);
    }
    if walk.current.waiting() {
        let dependency = walk.current.pending();
        if cache.contains_key(dependency) {
            match cache[dependency].module {
                Some(module) => {
                    lemma_resolved(context, cache, walk, module);
                    lemma_advance(context, cache, walk.resolved(module));
                },
                None => {
                    lemma_descend(context, cache, walk, cache[dependency]);
                },
            }
        }
    }
}

/// The invariant is kept when the current module is linked and the module
/// that waited for it goes on.
proof fn lemma_linked<P, L, M>(
    context: WalkContext<P, M>,
    cache: Map<ModuleKey, EntryView<P, M>>,
    walk: TraversalView<P, L, M>,
    module: M,
)
    requires
        cache_invariant(context, cache),
        frames_invariant(context, cache, walk),
        untouched(context, cache),
        !walk.current.waiting(),
        depth(walk) >= 1,
    ensures
        frames_invariant(
            context,
            cache_after_link(cache, walk, Ok(module)),
            TraversalView {
                parents: walk.parents.drop_last(),
                current: walk.parents.last().resolved(module),
                visited: walk.visited,
            },
        ),
        stable(context) ==> walk.current.key != context.root,
        walk.parents.last().local is Some,
{
    let top = depth(walk);
    let stored = cache_after_link(cache, walk, Ok(module));
    let after = TraversalView {
        parents: walk.parents.drop_last(),
        current: walk.parents.last().resolved(module),
        visited: walk.visited,
    };
    let parent = walk.parents.last();
    assert(frame_at(walk, top) == walk.current);
    assert(frame_at(walk, top - 1) == parent);
    assert(parent.well_formed() && parent.waiting() && parent.local is Some) by {
        assert(walk.parents[top - 1].well_formed());
    }
    assert(stable(context) ==> walk.current.key != context.root) by {
        if stable(context) && walk.current.key == context.root {
            assert(walk.parents[0].well_formed() && walk.parents[0].waiting());
            assert(agrees(context, frame_at(walk, 0).entry.value));
            assert(agrees(context, frame_at(walk, top).entry.value));
            assert(frame_at(walk, top).next <= frame_at(walk, 0).next);
        }
    }
    assert forall|key: ModuleKey| verified_in(cache, key) implies verified_in(stored, key) by {}
    assert(depth(after) == top - 1);
    assert forall|i: int| 0 <= i < top - 1 implies frame_at(after, i) == frame_at(walk, i) by {}
    assert(frame_at(after, top - 1) == parent.resolved(module));
    assert(parent.pending() == walk.current.key) by {
        assert(frame_at(walk, (top - 1) + 1).key == frame_at(walk, top - 1).pending());
    }
    assert(after.well_formed()) by {
        assert forall|i: int| 0 <= i < after.parents.len() implies (
        #[trigger] after.parents[i]).well_formed() && after.parents[i].waiting()
            && after.parents[i].local is Some by {
            assert(walk.parents[i].well_formed());
        }
    }
    assert(frame_at(after, 0).key == context.root) by {
        assert(frame_at(after, 0).key == frame_at(walk, 0).key);
    }
    assert(linked_frames(after)) by {
        assert forall|i: int| 0 <= i < depth(after) implies (#[trigger] frame_at(after, i + 1)).key
            == frame_at(after, i).pending() by {
            assert(frame_at(walk, i + 1).key == frame_at(walk, i).pending());
            assert(frame_at(after, i) == frame_at(walk, i));
            assert(frame_at(after, i + 1).key == frame_at(walk, i + 1).key);
        }
    }
    assert(visited_frames(after)) by {
        assert forall|i: int| 1 <= i <= depth(after) implies after.visited.contains(
            (#[trigger] frame_at(after, i)).key,
        ) by {
            assert(frame_at(after, i).key == frame_at(walk, i).key);
        }
    }
    assert(agreeing_frames(context, after)) by {
        assert forall|i: int| 0 <= i <= depth(after) implies agrees(
            context,
            (#[trigger] frame_at(after, i)).entry.value,
        ) by {
            assert(frame_at(after, i).entry == frame_at(walk, i).entry);
        }
    }
    assert(resolved_in_cache(stored, after)) by {
        assert forall|i: int, j: int|
            #![trigger frame_at(after, i).dependencies()[j]]
            0 <= i <= depth(after) && 0 <= j < frame_at(after, i).next implies verified_in(
            stored,
            frame_at(after, i).dependencies()[j],
        ) by {
            assert(frame_at(after, i).dependencies() == frame_at(walk, i).dependencies());
            if i == top - 1 && j == parent.next {
                assert(frame_at(after, i).dependencies()[j] == parent.pending());
            } else {
                assert(verified_in(cache, frame_at(walk, i).dependencies()[j]));
            }
        }
    }
    assert(unverified_frames(stored, after)) by {
        assert forall|i: int| 1 <= i <= depth(after) implies !verified_in(
            stored,
            (#[trigger] frame_at(after, i)).key,
        ) by {
            assert(frame_at(after, i).key == frame_at(walk, i).key);
            assert(frame_at(walk, i).key != frame_at(walk, top).key);
            assert(!verified_in(cache, frame_at(walk, i).key));
        }
    }
    assert(distinct_frames(after)) by {
        assert forall|i: int, k: int| 1 <= i < k <= depth(after) implies (#[trigger] frame_at(
            after,
            i,
        )).key != (#[trigger] frame_at(after, k)).key by {
            assert(frame_at(after, i).key == frame_at(walk, i).key);
            assert(frame_at(after, k).key == frame_at(walk, k).key);
        }
    }
    assert(stable(context) ==> behind_the_root(context.root, after)) by {
        if stable(context) {
        assert forall|k: int|
            1 <= k <= depth(after) && (#[trigger] frame_at(after, k)).key
                == context.root implies frame_at(after, k).next <= frame_at(after, 0).next by {
            assert(frame_at(after, k).key == frame_at(walk, k).key);
            assert(frame_at(walk, k).next <= frame_at(walk, 0).next);
            assert(frame_at(after, 0) == frame_at(walk, 0));
            if k == top - 1 && parent.next == frame_at(walk, 0).next {
                assert(walk.parents[0].well_formed());
                assert(agrees(context, frame_at(walk, 0).entry.value));
                assert(agrees(context, frame_at(walk, k).entry.value));
                assert(frame_at(walk, 0int + 1).key == frame_at(walk, 0).pending());
                assert(frame_at(walk, 1).key != frame_at(walk, top).key);
            }
        }
    }
    }
}

/// Storing a module whose dependencies are all in the cache, verified, keeps
/// what holds of the cache.
proof fn lemma_stored<P, L, M>(
    context: WalkContext<P, M>,
    cache: Map<ModuleKey, EntryView<P, M>>,
    walk: TraversalView<P, L, M>,
    module: M,
)
    requires
        cache_invariant(context, cache),
        frames_invariant(context, cache, walk),
        !walk.current.waiting(),
    ensures
        cache_invariant(context, cache_after_link(cache, walk, Ok(module))),
{
    let stored = cache_after_link(cache, walk, Ok(module));
    let top = depth(walk);
    assert(frame_at(walk, top) == walk.current);
    assert forall|key: ModuleKey| verified_in(cache, key) implies verified_in(stored, key) by {}
    assert(agrees_with_state(context, stored)) by {
        if stored.contains_key(context.root) && !stored[context.root].is_verified() {
            assert(cache.contains_key(context.root) && cache[context.root] == stored[context.root]);
        }
    }
    if closed(context.initial) {
        assert forall|key: ModuleKey, j: int|
            #![trigger verified_in(stored, key), stored[key].value.dependencies[j]]
            verified_in(stored, key) && 0 <= j
                < stored[key].value.dependencies.len() implies verified_in(
            stored,
            stored[key].value.dependencies[j],
        ) by {
            if key == walk.current.key {
                assert(stored[key].value.dependencies == frame_at(walk, top).dependencies());
                assert(verified_in(cache, frame_at(walk, top).dependencies()[j]));
            } else {
                assert(verified_in(cache, key));
                assert(verified_in(cache, cache[key].value.dependencies[j]));
            }
        }
    }
}

/// The invariant holds when a walk starts, provided that the module to
/// verify, and what the cache holds for it if it holds it unverified, declare
/// the dependencies that the walk starts with.
pub proof fn lemma_walk_starts<P, L, M>(
    context: WalkContext<P, M>,
    visited: Set<ModuleKey>,
    entry: EntryView<P, M>,
)
    requires
        agrees(context, entry.value),
        agrees_with_state(context, context.initial),
    ensures
        walk_invariant(
            context,
            context.initial,
            enter::<P, L, M>(Seq::empty(), visited, entry, context.root),
        ),
{
    if entry.value.id == context.root {
        let walk = TraversalView {
            parents: Seq::<FrameView<P, L, M>>::empty(),
            current: FrameView::fresh(context.root, entry),
            visited,
        };
        assert(frame_at(walk, 0) == walk.current);
        assert(frames_invariant(context, context.initial, walk));
    }
}

/// The invariant is kept when a walk goes on after its current module was
/// verified on its own.
pub proof fn lemma_walk_after_local_verification<P, L, M>(
    context: WalkContext<P, M>,
    cache: Map<ModuleKey, EntryView<P, M>>,
    walk: TraversalView<P, L, M>,
    outcome: Result<L, u64>,
)
    requires
        walk_invariant(context, cache, StepView::VerifyLocally(walk)),
    ensures
        walk_invariant(context, cache, after_local_verification(cache, walk, outcome)),
{
    match outcome {
        Ok(local) => {
            lemma_local_changed(context, cache, walk, Some(local));
            lemma_advance(context, cache, walk.with_local(Some(local)));
        },
        Err(_) => {},
    }
}

/// The invariant is kept when a walk goes on after a dependency was read from
/// state, provided that what was found, if it is the module that the walk is
/// to verify, declares the dependencies that the walk started with.
pub proof fn lemma_walk_after_fetch<P, L, M>(
    context: WalkContext<P, M>,
    cache: Map<ModuleKey, EntryView<P, M>>,
    walk: TraversalView<P, L, M>,
    fetched: FetchedView<P>,
)
    requires
        walk_invariant(context, cache, StepView::Fetch(walk)),
        fetched matches FetchedView::Found(value) ==> agrees(context, value),
    ensures
        walk_invariant(context, cache, after_fetch(walk, fetched)),
{
    match fetched {
        FetchedView::Found(value) => {
            lemma_descend(context, cache, walk, EntryView { value, module: None });
        },
        _ => {},
    }
}

/// The invariant is kept when a walk goes on after its current module was
/// linked.
pub proof fn lemma_walk_after_link<P, L, M>(
    context: WalkContext<P, M>,
    cache: Map<ModuleKey, EntryView<P, M>>,
    walk: TraversalView<P, L, M>,
    local: L,
    outcome: Result<M, u64>,
)
    requires
        walk_invariant(context, cache, StepView::Link(walk, local)),
    ensures
        walk_invariant(
            context,
            cache_after_link(cache, walk, outcome),
            after_link(cache, walk, outcome),
        ),
{
    match outcome {
        Ok(module) => {
            lemma_stored(context, cache, walk, module);
            if depth(walk) >= 1 {
                lemma_linked(context, cache, walk, module);
                lemma_advance(
                    context,
                    cache_after_link(cache, walk, outcome),
                    TraversalView {
                        parents: walk.parents.drop_last(),
                        current: walk.parents.last().resolved(module),
                        visited: walk.visited,
                    },
                );
            } else {
                let stored = cache_after_link(cache, walk, outcome);
                assert(frame_at(walk, 0) == walk.current);
                assert forall|j: int|
                    0 <= j < stored[context.root].value.dependencies.len() implies verified_in(
                    stored,
                    #[trigger] stored[context.root].value.dependencies[j],
                ) by {
                    assert(verified_in(cache, frame_at(walk, 0).dependencies()[j]));
                }
            }
        },
        Err(_) => {},
    }
}

/// What comes back from outside when a walk is resumed.
pub enum Answer<P, L, M> {
    LocallyVerified(Result<L, u64>),
    Fetched(FetchedView<P>),
    Linked(Result<M, u64>),
}

/// The cache and the step after a walk at `step` was resumed with `answer`.
/// An answer to another question than the one that the step asks changes
/// nothing, and neither does an answer to a walk that is done.
pub open spec fn resumed<P, L, M>(
    cache: Map<ModuleKey, EntryView<P, M>>,
    step: StepView<P, L, M>,
    answer: Answer<P, L, M>,
) -> (Map<ModuleKey, EntryView<P, M>>, StepView<P, L, M>) {
    match (step, answer) {
        (StepView::VerifyLocally(walk), Answer::LocallyVerified(outcome)) => (
            cache,
            after_local_verification(cache, walk, outcome),
        ),
        (StepView::Fetch(walk), Answer::Fetched(fetched)) => (cache, after_fetch(walk, fetched)),
        (StepView::Link(walk, _), Answer::Linked(outcome)) => (
            cache_after_link(cache, walk, outcome),
            after_link(cache, walk, outcome),
        ),
        _ => (cache, step),
    }
}

/// The cache and the step after a walk at `step` was resumed with each of
/// `answers` in turn.
pub open spec fn run<P, L, M>(
    cache: Map<ModuleKey, EntryView<P, M>>,
    step: StepView<P, L, M>,
    answers: Seq<Answer<P, L, M>>,
) -> (Map<ModuleKey, EntryView<P, M>>, StepView<P, L, M>)
    decreases answers.len(),
{
    if answers.len() == 0 {
        (cache, step)
    } else {
        let next = resumed(cache, step, answers[0]);
        run(next.0, next.1, answers.drop_first())
    }
}

/// Whether, each time that `answers` say that the module that the walk is to
/// verify was found in state, it declares the dependencies that the walk
/// started with.
pub open spec fn answers_agree<P, L, M>(
    context: WalkContext<P, M>,
    answers: Seq<Answer<P, L, M>>,
) -> bool {
    forall|i: int|
        0 <= i < answers.len() ==> (#[trigger] answers[i] matches Answer::Fetched(
            FetchedView::Found(value),
        ) ==> agrees(context, value))
}

/// The invariant holds after any number of steps.
pub proof fn lemma_walk<P, L, M>(
    context: WalkContext<P, M>,
    cache: Map<ModuleKey, EntryView<P, M>>,
    step: StepView<P, L, M>,
    answers: Seq<Answer<P, L, M>>,
)
    requires
        walk_invariant(context, cache, step),
        answers_agree(context, answers),
    ensures
        walk_invariant(context, run(cache, step, answers).0, run(cache, step, answers).1),
    decreases answers.len(),
{
    if answers.len() > 0 {
        let next = resumed(cache, step, answers[0]);
        match (step, answers[0]) {
            (StepView::VerifyLocally(walk), Answer::LocallyVerified(outcome)) => {
                lemma_walk_after_local_verification(context, cache, walk, outcome);
            },
            (StepView::Fetch(walk), Answer::Fetched(fetched)) => {
                lemma_walk_after_fetch(context, cache, walk, fetched);
            },
            (StepView::Link(walk, local), Answer::Linked(outcome)) => {
                lemma_walk_after_link(context, cache, walk, local, outcome);
            },
            _ => {},
        }
        let rest = answers.drop_first();
        assert forall|i: int| 0 <= i < rest.len() implies (
        #[trigger] rest[i] matches Answer::Fetched(FetchedView::Found(value)) ==> agrees(
            context,
            value,
        )) by {
            assert(rest[i] == answers[i + 1]);
        }
        lemma_walk(context, next.0, next.1, rest);
    }
}

/// What a walk starts from when it is to verify `entry` under `root`, on a
/// cache that holds `initial`.
pub open spec fn walk_of<P, M>(
    root: ModuleKey,
    initial: Map<ModuleKey, EntryView<P, M>>,
    entry: EntryView<P, M>,
) -> WalkContext<P, M> {
    WalkContext { root, initial, dependencies: Some(entry.value.dependencies) }
}

/// A walk that ends without a verified module has stored nothing for the
/// module that it was to verify: the cache holds under that key what it held
/// when the walk started. This holds whatever made the walk fail: a cycle, a
/// dependency that state does not hold, a failed read, a module that was
/// rejected.
///
/// Asked is that the module does not change under the walk: that state,
/// when it is read for this module, and the cache, if it holds this module
/// unverified, give it with the dependencies of `entry`.
pub proof fn lemma_failed_walk_stores_nothing_for_its_module<P, L, M>(
    root: ModuleKey,
    initial: Map<ModuleKey, EntryView<P, M>>,
    visited: Set<ModuleKey>,
    entry: EntryView<P, M>,
    answers: Seq<Answer<P, L, M>>,
)
    requires
        agrees_with_state(walk_of(root, initial, entry), initial),
        answers_agree(walk_of(root, initial, entry), answers),
        run(initial, enter(Seq::empty(), visited, entry, root), answers).1 matches StepView::Done(
            Err(_),
        ),
    ensures
        slot(run(initial, enter(Seq::empty(), visited, entry, root), answers).0, root) == slot(
            initial,
            root,
        ),
{
    let context = walk_of(root, initial, entry);
    lemma_walk_starts::<P, L, M>(context, visited, entry);
    lemma_walk(context, initial, enter(Seq::empty(), visited, entry, root), answers);
}

/// A walk that fails on a cache that held no entry for the module that it
/// was to verify leaves the cache without an entry for it, verified or not.
/// Nothing is asked of the entries that the cache holds.
pub proof fn lemma_failed_walk_leaves_no_entry_for_its_module<P, L, M>(
    root: ModuleKey,
    initial: Map<ModuleKey, EntryView<P, M>>,
    visited: Set<ModuleKey>,
    entry: EntryView<P, M>,
    answers: Seq<Answer<P, L, M>>,
)
    requires
        !initial.contains_key(root),
        answers_agree(walk_of(root, initial, entry), answers),
        run(initial, enter(Seq::empty(), visited, entry, root), answers).1 matches StepView::Done(
            Err(_),
        ),
    ensures
        !run(initial, enter(Seq::empty(), visited, entry, root), answers).0.contains_key(root),
{
    lemma_failed_walk_stores_nothing_for_its_module(root, initial, visited, entry, answers);
}

/// A walk that ends with a verified module has stored that module under the
/// key of the module that it was to verify, and the cache holds each of its
/// dependencies, verified. If, when the walk started, the cache held every
/// dependency of every verified module, verified, then it does so when the
/// walk ends: the dependencies of the module, and theirs, and so on, are all
/// in the cache, verified. This holds of every walk, whatever state and the
/// cache hold.
pub proof fn lemma_successful_walk_stores_its_module<P, L, M>(
    root: ModuleKey,
    initial: Map<ModuleKey, EntryView<P, M>>,
    visited: Set<ModuleKey>,
    entry: EntryView<P, M>,
    answers: Seq<Answer<P, L, M>>,
    module: M,
)
    requires
        run(initial, enter(Seq::empty(), visited, entry, root), answers).1 == StepView::<
            P,
            L,
            M,
        >::Done(Ok(module)),
    ensures
        ({
            let end = run(initial, enter(Seq::empty(), visited, entry, root), answers).0;
            &&& verified_in(end, root)
            &&& end[root].module == Some(module)
            &&& dependencies_verified(end, root)
            &&& closed(initial) ==> closed(end)
        }),
{
    let context = WalkContext { root, initial, dependencies: None };
    lemma_walk_starts::<P, L, M>(context, visited, entry);
    lemma_walk(context, initial, enter(Seq::empty(), visited, entry, root), answers);
}

/// Whether the cache holds, verified, every dependency of the current module
/// of `walk` that is not resolved yet.
pub open spec fn rest_is_cached<P, L, M>(
    cache: Map<ModuleKey, EntryView<P, M>>,
    walk: TraversalView<P, L, M>,
) -> bool {
    forall|j: int|
        walk.current.next <= j < walk.current.dependencies().len() ==> verified_in(
            cache,
            #[trigger] walk.current.dependencies()[j],
        )
}

/// A module whose remaining dependencies are all in the cache, verified, is
/// linked next: nothing is read from state and no other module is entered.
pub proof fn lemma_advance_over_cached_dependencies<P, L, M>(
    cache: Map<ModuleKey, EntryView<P, M>>,
    walk: TraversalView<P, L, M>,
)
    requires
        walk.current.well_formed(),
        rest_is_cached(cache, walk),
    ensures
        advance(cache, walk) matches StepView::Link(linking, local) && linking.parents
            == walk.parents && linking.visited == walk.visited && linking.current.key
            == walk.current.key && linking.current.entry == walk.current.entry
            && !linking.current.waiting() && local == walk.current.local->0,
    decreases walk.current.dependencies().len() - walk.current.next,
{
    if walk.current.waiting() {
        let dependency = walk.current.pending();
        assert(verified_in(cache, walk.current.dependencies()[walk.current.next as int]));
        let module = cache[dependency].module->0;
        let after = walk.resolved(module);
        assert forall|j: int|
            after.current.next <= j < after.current.dependencies().len() implies verified_in(
            cache,
            #[trigger] after.current.dependencies()[j],
        ) by {
            assert(verified_in(cache, walk.current.dependencies()[j]));
        }
        lemma_advance_over_cached_dependencies(cache, after);
    }
}

/// Verifying a module once more, when the cache holds all its dependencies
/// verified, reads nothing from state: the module is verified on its own,
/// what that gave is handed out to link it against what the cache holds, and
/// the walk is done.
pub proof fn lemma_walk_over_cached_dependencies_fetches_nothing<P, L, M>(
    cache: Map<ModuleKey, EntryView<P, M>>,
    visited: Set<ModuleKey>,
    entry: EntryView<P, M>,
    key: ModuleKey,
    local: L,
    module: M,
)
    requires
        entry.value.id == key,
        forall|j: int|
            0 <= j < entry.value.dependencies.len() ==> verified_in(
                cache,
                #[trigger] entry.value.dependencies[j],
            ),
    ensures
        enter(Seq::empty(), visited, entry, key) matches StepView::VerifyLocally(walk)
            && after_local_verification(cache, walk, Ok(local)) matches StepView::Link(
            linking,
            handed_out,
        ) && handed_out == local && after_link(cache, linking, Ok(module)) == StepView::<
            P,
            L,
            M,
        >::Done(Ok(module)),
{
    let walk = TraversalView {
        parents: Seq::<FrameView<P, L, M>>::empty(),
        current: FrameView::fresh(key, entry),
        visited,
    };
    let verified = walk.with_local(Some(local));
    assert(rest_is_cached(cache, verified));
    lemma_advance_over_cached_dependencies(cache, verified);
}

/// Verifying a module once more after a walk has stored it, in a cache that
/// holds every dependency of every verified module, reads nothing from state.
pub proof fn lemma_second_walk_fetches_nothing<P, L, M>(
    cache: Map<ModuleKey, EntryView<P, M>>,
    visited: Set<ModuleKey>,
    entry: EntryView<P, M>,
    key: ModuleKey,
    local: L,
    module: M,
)
    requires
        closed(cache),
        verified_in(cache, key),
        entry.value.id == key,
        entry.value.dependencies == cache[key].value.dependencies,
    ensures
        enter(Seq::empty(), visited, entry, key) matches StepView::VerifyLocally(walk)
            && after_local_verification(cache, walk, Ok(local)) matches StepView::Link(
            linking,
            handed_out,
        ) && handed_out == local && after_link(cache, linking, Ok(module)) == StepView::<
            P,
            L,
            M,
        >::Done(Ok(module)),
{
    assert forall|j: int| 0 <= j < entry.value.dependencies.len() implies verified_in(
        cache,
        #[trigger] entry.value.dependencies[j],
    ) by {
        assert(verified_in(cache, cache[key].value.dependencies[j]));
    }
    lemma_walk_over_cached_dependencies_fetches_nothing(
        cache,
        visited,
        entry,
        key,
        local,
        module,
    );
}

/// The walk that a step is in the course of, if it is not done.
pub open spec fn in_progress<P, L, M>(step: StepView<P, L, M>) -> Option<TraversalView<P, L, M>> {
    match step {
        StepView::VerifyLocally(walk) => Some(walk),
        StepView::Fetch(walk) => Some(walk),
        StepView::Link(walk, _) => Some(walk),
        StepView::Done(_) => None,
    }
}

/// Whether `answer` says that the current module of `step` was linked.
pub open spec fn links<P, L, M>(step: StepView<P, L, M>, answer: Answer<P, L, M>) -> bool {
    step is Link && answer matches Answer::Linked(Ok(_))
}

/// A step that ends a walk without a verified module stores nothing, unless
/// it is the step that links the current module and the walk fails on a later
/// dependency of the module that waited for it: the linked module is then
/// stored, verified, and nothing else.
pub proof fn lemma_failing_step_stores_no_more_than_it_linked<P, L, M>(
    cache: Map<ModuleKey, EntryView<P, M>>,
    step: StepView<P, L, M>,
    answer: Answer<P, L, M>,
)
    requires
        resumed(cache, step, answer).1 matches StepView::Done(Err(_)),
    ensures
        !links(step, answer) ==> resumed(cache, step, answer).0 == cache,
        links(step, answer) ==> resumed(cache, step, answer).0 == cache.insert(
            in_progress(step)->0.current.key,
            resumed(cache, step, answer).0[in_progress(step)->0.current.key],
        ) && verified_in(resumed(cache, step, answer).0, in_progress(step)->0.current.key),
{
    if links(step, answer) {
        let walk = in_progress(step)->0;
        let stored = resumed(cache, step, answer).0;
        assert(stored =~= cache.insert(walk.current.key, stored[walk.current.key]));
    }
}

/// While a walk is in progress, none of the modules that it has descended
/// into and not finished is in the cache as verified.
pub proof fn lemma_modules_in_progress_are_not_verified<P, L, M>(
    context: WalkContext<P, M>,
    cache: Map<ModuleKey, EntryView<P, M>>,
    step: StepView<P, L, M>,
    i: int,
)
    requires
        walk_invariant(context, cache, step),
        in_progress(step) matches Some(walk) && 1 <= i <= depth(walk),
    ensures
        !verified_in(cache, frame_at(in_progress(step)->0, i).key),
{
}

/// When a walk fails, none of the modules that it had descended into and not
/// finished is in the cache as verified. The one module that the failing step
/// may have just linked is finished, and is not meant.
pub proof fn lemma_failed_walk_leaves_modules_in_progress_unverified<P, L, M>(
    context: WalkContext<P, M>,
    cache: Map<ModuleKey, EntryView<P, M>>,
    step: StepView<P, L, M>,
    answer: Answer<P, L, M>,
    i: int,
)
    requires
        walk_invariant(context, cache, step),
        resumed(cache, step, answer).1 matches StepView::Done(Err(_)),
        in_progress(step) matches Some(walk) && 1 <= i <= depth(walk) && (i < depth(walk) || !links(
            step,
            answer,
        )),
    ensures
        !verified_in(resumed(cache, step, answer).0, frame_at(in_progress(step)->0, i).key),
{
    let walk = in_progress(step)->0;
    lemma_failing_step_stores_no_more_than_it_linked(cache, step, answer);
    if links(step, answer) {
        assert(frame_at(walk, i).key != frame_at(walk, depth(walk)).key);
    }
}

} // verus!
