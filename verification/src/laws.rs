//! Laws of the block-candidate state machine, proved once and for all over
//! the transition predicates that every service implementation is bound to.

use vstd::prelude::*;

use crate::error::ConsensusError;
use crate::service::{
    cancel_block_spec, finalize_block_spec, get_blocks_spec, initialize_block_spec,
    summarize_block_spec, ServiceView,
};
use crate::types::{Block, BlockId};

verus! {

/// Law: `initialize_block` followed immediately by a second
/// `initialize_block`, with no intervening finalize or cancel, fails with
/// `InvalidState` and leaves the state unchanged.
pub proof fn lemma_initialize_twice(
    pre: ServiceView,
    prev1: Option<Seq<u8>>,
    mid: ServiceView,
    r1: Result<(), ConsensusError>,
    prev2: Option<Seq<u8>>,
    post: ServiceView,
    r2: Result<(), ConsensusError>,
)
    requires
        initialize_block_spec(pre, prev1, mid, r1),
        r1 is Ok,
        initialize_block_spec(mid, prev2, post, r2),
    ensures
        r2 matches Err(e) && e is InvalidState,
        post == mid,
{
}

/// Law: `finalize_block` without a prior successful `summarize_block` fails
/// with the retryable `BlockNotReady` and leaves the state unchanged.
pub proof fn lemma_finalize_without_summarize(
    pre: ServiceView,
    prev: Option<Seq<u8>>,
    mid: ServiceView,
    r1: Result<(), ConsensusError>,
    data: Seq<u8>,
    post: ServiceView,
    r2: Result<BlockId, ConsensusError>,
)
    requires
        initialize_block_spec(pre, prev, mid, r1),
        r1 is Ok,
        finalize_block_spec(mid, data, post, r2),
    ensures
        r2 matches Err(e) && e is BlockNotReady,
        post == mid,
{
}

/// Law: `cancel_block` from any active candidate state (`Building` or
/// `Summarized`) succeeds and returns the machine to `Idle`, whatever else
/// holds of the host; a subsequent `initialize_block` on the current chain
/// head then succeeds whenever a head exists (startup always hands one
/// over), and before genesis it reports `NoChainHead`.
pub proof fn lemma_cancel_returns_idle(
    pre: ServiceView,
    post: ServiceView,
    r: Result<(), ConsensusError>,
    post2: ServiceView,
    r2: Result<(), ConsensusError>,
)
    requires
        pre.phase is Building || pre.phase is Summarized,
        cancel_block_spec(pre, post, r),
        initialize_block_spec(post, None, post2, r2),
    ensures
        r is Ok,
        post.phase is Idle,
        pre.chain_head is Some ==> r2 is Ok,
        pre.chain_head is None ==> (r2 matches Err(e) && e is NoChainHead),
{
}

/// Law: a block built by `initialize_block(None)`, `summarize_block` and
/// `finalize_block(data)` and then retrieved through `get_blocks` on the
/// returned identifier carries `data` as its payload, sits directly on the
/// chain head that was current at initialization (one height above it), and
/// carries the digest that `summarize_block` returned as its summary.
pub proof fn lemma_build_round_trip(
    pre: ServiceView,
    s1: ServiceView,
    r1: Result<(), ConsensusError>,
    s2: ServiceView,
    r2: Result<Vec<u8>, ConsensusError>,
    data: Vec<u8>,
    s3: ServiceView,
    r3: Result<BlockId, ConsensusError>,
    id: BlockId,
    s4: ServiceView,
    r4: Result<Vec<Block>, ConsensusError>,
    blocks_out: Vec<Block>,
)
    requires
        pre.phase is Idle,
        pre.chain_head is Some,
        pre.chain_head->0.block_num < u64::MAX,
        pre.summary_ready,
        pre.next_id < u64::MAX,
        initialize_block_spec(pre, None, s1, r1),
        summarize_block_spec(s1, s2, r2),
        finalize_block_spec(s2, data@, s3, r3),
        r3 == Ok::<BlockId, ConsensusError>(id),
        get_blocks_spec(s3, seq![id@], s4, r4),
        r4 == Ok::<Vec<Block>, ConsensusError>(blocks_out),
    ensures
        blocks_out@.len() == 1,
        blocks_out@[0]@.payload == data@,
        blocks_out@[0]@.extends(pre.chain_head->0),
        r2 matches Ok(s) && blocks_out@[0]@.summary == s@,
{
    let h = pre.chain_head->0;
    let b = crate::service::finalized_block(s2, h, data@);
    assert(s1.candidate == Some(h));
    assert(id@ == b.block_id);
    assert(s3.blocks.contains_key(id@));
    assert(seq![id@][0] == id@);
    assert(crate::service::all_known(s3, seq![id@]));
    let resolved = crate::service::resolved_blocks(s3, seq![id@]);
    assert(resolved.len() == 1);
    assert(resolved[0] == s3.blocks[id@]);
    assert(blocks_out@.map_values(|x: Block| x@)[0] == blocks_out@[0]@);
}

/// Law: across any run of an engine whose steps keep the invalidated set
/// growing and never commit an already-invalidated identifier (the
/// per-update guarantees of the reference engine), an identifier that is
/// invalidated at some step is never committed at any later step.
pub proof fn lemma_no_commit_after_invalid(
    invalidated: Seq<Set<Seq<u8>>>,
    commits: Seq<Seq<Seq<u8>>>,
    id: Seq<u8>,
    k: int,
    j: int,
)
    requires
        invalidated.len() == commits.len(),
        forall|t: int|
            0 <= t < invalidated.len() - 1 ==> (#[trigger] invalidated[t]).subset_of(
                invalidated[t + 1],
            ),
        forall|t: int, x: Seq<u8>|
            0 <= t < commits.len() && #[trigger] commits[t].contains(x) ==> !invalidated[
                t
            ].contains(x),
        0 <= k <= j < commits.len(),
        invalidated[k].contains(id),
    ensures
        !commits[j].contains(id),
{
    lemma_invalidated_monotone(invalidated, k, j);
}

/// The invalidated set only grows across steps.
proof fn lemma_invalidated_monotone(invalidated: Seq<Set<Seq<u8>>>, k: int, j: int)
    requires
        forall|t: int|
            0 <= t < invalidated.len() - 1 ==> (#[trigger] invalidated[t]).subset_of(
                invalidated[t + 1],
            ),
        0 <= k <= j < invalidated.len(),
    ensures
        invalidated[k].subset_of(invalidated[j]),
    decreases j - k,
{
    if k < j {
        lemma_invalidated_monotone(invalidated, k, j - 1);
        assert(invalidated[j - 1].subset_of(invalidated[j]));
    }
}

} // verus!
