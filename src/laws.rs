use crate::bridge::{ingested, query_spec, released};
use crate::outcome::BridgeError;
use crate::registry::Registry;
use vstd::prelude::*;

verus! {

/// The handle that a successful ingest returned, if it succeeded.
pub open spec fn handle_of(r: Result<u32, BridgeError>) -> Option<u32> {
    match r {
        Ok(h) => Some(h),
        Err(_) => None,
    }
}

/// `post` is what one call of the public operations can leave of `pre`, and
/// `issued` is the handle that call returned, if it was a successful ingest.
pub open spec fn call_step(pre: Registry, post: Registry, issued: Option<u32>) -> bool {
    ||| exists|bytes: Seq<u8>, r: Result<u32, BridgeError>|
        #[trigger] ingested(pre, bytes, post, r) && issued == handle_of(r)
    ||| post == pre && issued is None
    ||| exists|h: u32, n: usize| #[trigger] released(pre, h, post, n) && issued is None
}

/// `run` is a run of calls, call `i` leading from `run[i]` to `run[i + 1]` and
/// handing out `handles[i]`.
pub open spec fn is_run(run: Seq<Registry>, handles: Seq<Option<u32>>) -> bool {
    &&& run.len() == handles.len() + 1
    &&& forall|i: int| 0 <= i < handles.len() ==> call_step(run[i], run[i + 1], #[trigger] handles[i])
}

/// A successful or failed ingest, as its contract describes it, is one step of
/// a run, handing out the handle it returned.
pub proof fn lemma_ingest_is_step(
    pre: Registry,
    bytes: Seq<u8>,
    post: Registry,
    r: Result<u32, BridgeError>,
)
    requires
        ingested(pre, bytes, post, r),
    ensures
        call_step(pre, post, handle_of(r)),
{
}

/// A query leaves the registry as it was: one step of a run that hands out
/// nothing.
pub proof fn lemma_query_is_step(reg: Registry)
    ensures
        call_step(reg, reg, None),
{
}

/// A release, as its contract describes it, is one step of a run that hands
/// out nothing.
pub proof fn lemma_release_is_step(pre: Registry, handle: u32, post: Registry, remaining: usize)
    requires
        released(pre, handle, post, remaining),
    ensures
        call_step(pre, post, None),
{
}

proof fn lemma_call_step(pre: Registry, post: Registry, issued: Option<u32>)
    requires
        call_step(pre, post, issued),
    ensures
        pre.issued() <= post.issued(),
        issued matches Some(h) ==> pre.issued() < h && h == post.issued(),
{
    if exists|bytes: Seq<u8>, r: Result<u32, BridgeError>|
        #[trigger] ingested(pre, bytes, post, r) && issued == handle_of(r) {
        let (bytes, r) = choose|bytes: Seq<u8>, r: Result<u32, BridgeError>|
            #[trigger] ingested(pre, bytes, post, r) && issued == handle_of(r);
        assert(ingested(pre, bytes, post, r));
    }
}

proof fn lemma_run_issued_grows(run: Seq<Registry>, handles: Seq<Option<u32>>, i: int, j: int)
    requires
        is_run(run, handles),
        0 <= i <= j < run.len(),
    ensures
        run[i].issued() <= run[j].issued(),
    decreases j - i,
{
    if i < j {
        lemma_run_issued_grows(run, handles, i, j - 1);
        lemma_call_step(run[j - 1], run[j], handles[j - 1]);
    }
}

/// A handle that an ingest hands out is greater than one handed out by an
/// earlier ingest, whatever calls came between (none of them lowers the last
/// handle issued).
pub proof fn lemma_later_handle_greater(
    pre1: Registry,
    bytes1: Seq<u8>,
    post1: Registry,
    h1: u32,
    pre2: Registry,
    bytes2: Seq<u8>,
    post2: Registry,
    h2: u32,
)
    requires
        ingested(pre1, bytes1, post1, Ok(h1)),
        post1.issued() <= pre2.issued(),
        ingested(pre2, bytes2, post2, Ok(h2)),
    ensures
        h1 < h2,
{
}

/// Handles are strictly increasing in ingest order: in any run of calls, a
/// handle handed out later is greater than one handed out earlier.
pub proof fn lemma_handles_increase(run: Seq<Registry>, handles: Seq<Option<u32>>, i: int, j: int)
    requires
        is_run(run, handles),
        0 <= i < j < handles.len(),
        handles[i] is Some,
        handles[j] is Some,
    ensures
        handles[i]->Some_0 < handles[j]->Some_0,
{
    lemma_call_step(run[i], run[i + 1], handles[i]);
    lemma_run_issued_grows(run, handles, i + 1, j);
    lemma_call_step(run[j], run[j + 1], handles[j]);
}

/// The handles handed out in any run of calls are pairwise distinct.
pub proof fn lemma_handles_distinct(run: Seq<Registry>, handles: Seq<Option<u32>>, i: int, j: int)
    requires
        is_run(run, handles),
        0 <= i < handles.len(),
        0 <= j < handles.len(),
        i != j,
        handles[i] is Some,
        handles[j] is Some,
    ensures
        handles[i] != handles[j],
{
    if i < j {
        lemma_handles_increase(run, handles, i, j);
    } else {
        lemma_handles_increase(run, handles, j, i);
    }
}

/// Releasing a handle a second time changes nothing, and returns what the
/// first release returned, which is what a release of any handle that names no
/// live map returns at that point.
pub proof fn lemma_release_idempotent(
    pre: Registry,
    handle: u32,
    once: Registry,
    first: usize,
    twice: Registry,
    second: usize,
    unknown: u32,
    other: Registry,
    count: usize,
)
    requires
        released(pre, handle, once, first),
        released(once, handle, twice, second),
        !once.entries().contains_key(unknown),
        released(once, unknown, other, count),
    ensures
        twice.entries() == once.entries(),
        second == first,
        second == count,
{
    assert(once.entries().remove(handle) =~= once.entries());
    assert(once.entries().remove(unknown) =~= once.entries());
}

/// `post` follows `pre` by an ingest that succeeded.
pub open spec fn ingest_succeeded(pre: Registry, post: Registry) -> bool {
    exists|bytes: Seq<u8>, h: u32| #[trigger] ingested(pre, bytes, post, Ok(h))
}

/// `post` follows `pre` by the release of a handle that named a live map.
pub open spec fn live_release(pre: Registry, post: Registry) -> bool {
    exists|h: u32, n: usize| pre.entries().contains_key(h) && #[trigger] released(pre, h, post, n)
}

/// How many entries of `kinds` equal `which`.
pub open spec fn tally(kinds: Seq<bool>, which: bool) -> int
    decreases kinds.len(),
{
    if kinds.len() == 0 {
        0
    } else {
        tally(kinds.drop_last(), which) + if kinds.last() == which {
            1int
        } else {
            0int
        }
    }
}

proof fn lemma_live_count(run: Seq<Registry>, kinds: Seq<bool>, i: int)
    requires
        run.len() == kinds.len() + 1,
        run[0].entries() == Map::<u32, sourcemap::SourceMap>::empty(),
        forall|j: int|
            0 <= j < kinds.len() ==> (if #[trigger] kinds[j] {
                ingest_succeeded(run[j], run[j + 1])
            } else {
                live_release(run[j], run[j + 1])
            }),
        0 <= i <= kinds.len(),
    ensures
        run[i].entries().dom().finite(),
        run[i].entries().len() == tally(kinds.take(i), true) - tally(kinds.take(i), false),
    decreases i,
{
    if i > 0 {
        lemma_live_count(run, kinds, i - 1);
        assert(kinds.take(i).drop_last() == kinds.take(i - 1));
        let pre = run[i - 1];
        let post = run[i];
        if kinds[i - 1] {
            let (bytes, h) = choose|bytes: Seq<u8>, h: u32| #[trigger] ingested(pre, bytes, post, Ok(h));
            assert(ingested(pre, bytes, post, Ok(h)));
            assert(post.entries().dom().remove(post.issued()) =~= pre.entries().dom());
        } else {
            let (h, n) = choose|h: u32, n: usize|
                pre.entries().contains_key(h) && #[trigger] released(pre, h, post, n);
            assert(post.entries().dom() =~= pre.entries().dom().remove(h));
        }
    }
}

/// After `n` successful ingests and `k` releases of live handles, in any
/// order, on an empty registry, a release returns `n - k - 1` for a handle that
/// still names a map and `n - k` for any other.
pub proof fn lemma_count_accounting(
    run: Seq<Registry>,
    kinds: Seq<bool>,
    handle: u32,
    post: Registry,
    remaining: usize,
)
    requires
        run.len() == kinds.len() + 1,
        run[0].entries() == Map::<u32, sourcemap::SourceMap>::empty(),
        forall|j: int|
            0 <= j < kinds.len() ==> (if #[trigger] kinds[j] {
                ingest_succeeded(run[j], run[j + 1])
            } else {
                live_release(run[j], run[j + 1])
            }),
        released(run.last(), handle, post, remaining),
    ensures
        run.last().entries().contains_key(handle) ==> remaining == tally(kinds, true) - tally(
            kinds,
            false,
        ) - 1,
        !run.last().entries().contains_key(handle) ==> remaining == tally(kinds, true) - tally(
            kinds,
            false,
        ),
{
    lemma_live_count(run, kinds, kinds.len() as int);
    assert(kinds.take(kinds.len() as int) == kinds);
    let last = run.last();
    if last.entries().contains_key(handle) {
        assert(post.entries().dom() =~= last.entries().dom().remove(handle));
    } else {
        assert(post.entries() =~= last.entries());
    }
}

/// A query of a live map depends on that map and the position alone.
pub proof fn lemma_lookup_deterministic(a: Registry, b: Registry, handle: u32, line: u32, column: u32)
    requires
        a.entries().contains_key(handle),
        b.entries().contains_key(handle),
        a.entries()[handle] == b.entries()[handle],
    ensures
        query_spec(a.entries(), handle, line, column) == query_spec(
            b.entries(),
            handle,
            line,
            column,
        ),
{
}

/// Once a handle is released, a query of it finds no map.
pub proof fn lemma_query_after_release(
    pre: Registry,
    handle: u32,
    post: Registry,
    remaining: usize,
    line: u32,
    column: u32,
)
    requires
        released(pre, handle, post, remaining),
    ensures
        query_spec(post.entries(), handle, line, column) == None::<Option<(Seq<char>, u32, u32)>>,
{
}

} // verus!
