//! The service facade: the operations through which the engine builds,
//! queries and finalizes block candidates and talks to peers, together with
//! the abstract host state they act on and the exact transition each
//! operation performs.

use vstd::prelude::*;

use crate::error::ConsensusError;
use crate::types::{Block, BlockId, BlockView, PeerId};

verus! {

/// The block-candidate state machine: at most one candidate is in progress
/// per engine instance, and it moves `Idle -> Building -> Summarized -> Idle`
/// on finalize or cancel.
#[derive(Clone, Copy, Debug, PartialEq, Eq, Structural)]
pub enum CandidatePhase {
    /// No candidate is in progress.
    Idle,
    /// A candidate is being built.
    Building,
    /// The candidate's content digest has been computed; it can be finalized.
    Summarized,
}

/// One message handed to the transport: to a single peer, or to everyone
/// when `receiver` is `None`.
#[verifier::ext_equal]
pub struct SentMessageView {
    pub receiver: Option<Seq<u8>>,
    pub message_type: Seq<char>,
    pub payload: Seq<u8>,
}

/// The abstract state of a host behind the service facade.  Every service
/// operation is specified as an exact transition on this state.
#[verifier::ext_equal]
pub struct ServiceView {
    /// Where the block-candidate state machine stands.
    pub phase: CandidatePhase,
    /// The current best committed block, if any block exists yet.
    pub chain_head: Option<BlockView>,
    /// Every block the host can resolve, by identifier.
    pub blocks: Map<Seq<u8>, BlockView>,
    /// The parent block of the candidate in progress, while one exists.
    pub candidate: Option<BlockView>,
    /// Whether the host-defined readiness condition for summarizing the
    /// current candidate is met; until it is, `summarize_block` reports the
    /// retryable `BlockNotReady`.
    pub summary_ready: bool,
    /// The content digest the host computes over the current candidate.
    pub pending_summary: Seq<u8>,
    /// The counter from which the host mints the next finalized block's
    /// identifier.
    pub next_id: u64,
    /// The peer identifier under which the host signs produced blocks.
    pub local_peer_id: Seq<u8>,
    /// The peers the host can currently reach.
    pub peers: Set<Seq<u8>>,
    /// Ledger configuration, resolved by `get_settings`.
    pub settings: Map<Seq<char>, Seq<char>>,
    /// Ledger state entries, resolved by `get_state`.
    pub ledger_state: Map<Seq<char>, Seq<u8>>,
    /// Every message handed to the transport, in order.
    pub sent: Seq<SentMessageView>,
    /// Every identifier handed to `check_blocks`, in order.
    pub checked: Seq<Seq<u8>>,
    /// Every identifier the engine instructed the host to commit, in order.
    pub committed: Seq<Seq<u8>>,
    /// Every identifier the engine instructed the host to ignore, in order.
    pub ignored: Seq<Seq<u8>>,
    /// Every identifier the engine instructed the host to fail, in order.
    pub failed: Seq<Seq<u8>>,
}

impl ServiceView {
    /// Internal consistency: while a candidate is in progress its parent
    /// block is on record.
    pub open spec fn wf(self) -> bool {
        self.phase !is Idle ==> self.candidate is Some
    }
}

/// The big-endian bytes of the counter from which the host mints block
/// identifiers.
pub open spec fn block_id_bytes(n: u64) -> Seq<u8> {
    Seq::new(8, |i: int| ((n >> (((7 - i) * 8) as u64)) & 0xff) as u8)
}

/// Whether `initialize_block` succeeds on `pre` with the given parent
/// choice: the machine must be idle, and the requested parent (or the chain
/// head, when building atop the current head) must exist.
pub open spec fn initialize_ok(pre: ServiceView, previous_id: Option<Seq<u8>>) -> bool {
    &&& pre.phase is Idle
    &&& match previous_id {
        Some(p) => pre.blocks.contains_key(p),
        None => pre.chain_head is Some,
    }
}

/// The parent block a successful `initialize_block` builds on.
pub open spec fn initialize_parent(pre: ServiceView, previous_id: Option<Seq<u8>>) -> BlockView
    recommends
        initialize_ok(pre, previous_id),
{
    match previous_id {
        Some(p) => pre.blocks[p],
        None => match pre.chain_head {
            Some(h) => h,
            None => BlockView::empty(),
        },
    }
}

/// Exact transition of `initialize_block`: `Idle -> Building` on success;
/// `InvalidState` if a build is already in progress, `UnknownBlock` if the
/// named parent is not on record, `NoChainHead` if no head exists to build
/// on.  Failure leaves the state unchanged.
pub open spec fn initialize_block_spec(
    pre: ServiceView,
    previous_id: Option<Seq<u8>>,
    post: ServiceView,
    r: Result<(), ConsensusError>,
) -> bool {
    if initialize_ok(pre, previous_id) {
        &&& r is Ok
        &&& post == ServiceView {
            phase: CandidatePhase::Building,
            candidate: Some(initialize_parent(pre, previous_id)),
            ..pre
        }
    } else {
        &&& post == pre
        &&& r matches Err(e)
        &&& if pre.phase !is Idle {
            e is InvalidState
        } else if previous_id is Some {
            e is UnknownBlock
        } else {
            e is NoChainHead
        }
    }
}

/// Exact transition of `summarize_block`: `Building -> Summarized`, handing
/// back the host's content digest.  While the candidate is not yet eligible
/// the retryable `BlockNotReady` is reported; outside `Building` the call is
/// an `InvalidState`.  Failure leaves the state unchanged.
pub open spec fn summarize_block_spec(
    pre: ServiceView,
    post: ServiceView,
    r: Result<Vec<u8>, ConsensusError>,
) -> bool {
    if pre.phase is Building {
        if pre.summary_ready {
            &&& r matches Ok(s) && s@ == pre.pending_summary
            &&& post == ServiceView { phase: CandidatePhase::Summarized, ..pre }
        } else {
            &&& r matches Err(e) && e is BlockNotReady
            &&& post == pre
        }
    } else {
        &&& r matches Err(e) && e is InvalidState
        &&& post == pre
    }
}

/// The block a successful `finalize_block` mints on top of `parent`.
pub open spec fn finalized_block(pre: ServiceView, parent: BlockView, data: Seq<u8>) -> BlockView {
    BlockView {
        block_id: block_id_bytes(pre.next_id),
        previous_id: parent.block_id,
        signer_id: pre.local_peer_id,
        block_num: (parent.block_num + 1) as u64,
        payload: data,
        summary: pre.pending_summary,
    }
}

/// Exact transition of `finalize_block`: `Summarized -> Idle`, minting a
/// block whose payload is the engine-supplied data, whose parent is the
/// candidate's parent, and whose height is one above it.  From `Building`
/// the call reports `BlockNotReady` (summarize has not succeeded yet); from
/// `Idle`, `InvalidState`.  The machine limits on the height and identifier
/// counters surface as `InvalidState`.  Failure leaves the state unchanged.
pub open spec fn finalize_block_spec(
    pre: ServiceView,
    data: Seq<u8>,
    post: ServiceView,
    r: Result<BlockId, ConsensusError>,
) -> bool {
    match pre.phase {
        CandidatePhase::Summarized => {
            &&& pre.candidate matches Some(parent) ==> {
                if parent.block_num == u64::MAX || pre.next_id == u64::MAX {
                    &&& r matches Err(e) && e is InvalidState
                    &&& post == pre
                } else {
                    let b = finalized_block(pre, parent, data);
                    &&& r matches Ok(id) && id@ == b.block_id
                    &&& post == ServiceView {
                        phase: CandidatePhase::Idle,
                        candidate: None,
                        blocks: pre.blocks.insert(b.block_id, b),
                        next_id: (pre.next_id + 1) as u64,
                        ..pre
                    }
                }
            }
        },
        CandidatePhase::Building => {
            &&& r matches Err(e) && e is BlockNotReady
            &&& post == pre
        },
        CandidatePhase::Idle => {
            &&& r matches Err(e) && e is InvalidState
            &&& post == pre
        },
    }
}

/// Exact transition of `cancel_block`: from `Building` or `Summarized` the
/// candidate is aborted and the machine returns to `Idle`; calling it with
/// no active candidate is an `InvalidState` and changes nothing.
pub open spec fn cancel_block_spec(
    pre: ServiceView,
    post: ServiceView,
    r: Result<(), ConsensusError>,
) -> bool {
    if pre.phase is Idle {
        &&& r matches Err(e) && e is InvalidState
        &&& post == pre
    } else {
        &&& r is Ok
        &&& post == ServiceView { phase: CandidatePhase::Idle, candidate: None, ..pre }
    }
}

/// Whether every identifier in `ids` is on record in `pre`.
pub open spec fn all_known(pre: ServiceView, ids: Seq<Seq<u8>>) -> bool {
    forall|i: int| 0 <= i < ids.len() ==> pre.blocks.contains_key(#[trigger] ids[i])
}

/// Exact transition of `check_blocks`: the host records the validation
/// request (results arrive later as updates); an unknown identifier is an
/// `UnknownBlock` and changes nothing.
pub open spec fn check_blocks_spec(
    pre: ServiceView,
    priority: Seq<Seq<u8>>,
    post: ServiceView,
    r: Result<(), ConsensusError>,
) -> bool {
    if all_known(pre, priority) {
        &&& r is Ok
        &&& post == ServiceView { checked: pre.checked + priority, ..pre }
    } else {
        &&& r matches Err(e) && e is UnknownBlock
        &&& post == pre
    }
}

/// Exact transition of `commit_block`: the identified block becomes the
/// permanent chain head and the commit is recorded; an unknown identifier is
/// an `UnknownBlock` and changes nothing.
pub open spec fn commit_block_spec(
    pre: ServiceView,
    id: Seq<u8>,
    post: ServiceView,
    r: Result<(), ConsensusError>,
) -> bool {
    if pre.blocks.contains_key(id) {
        &&& r is Ok
        &&& post == ServiceView {
            chain_head: Some(pre.blocks[id]),
            committed: pre.committed.push(id),
            ..pre
        }
    } else {
        &&& r matches Err(e) && e is UnknownBlock
        &&& post == pre
    }
}

/// Exact transition of `ignore_block`: the block is discarded from
/// consideration without penalty and the instruction is recorded; an unknown
/// identifier is an `UnknownBlock` and changes nothing.
pub open spec fn ignore_block_spec(
    pre: ServiceView,
    id: Seq<u8>,
    post: ServiceView,
    r: Result<(), ConsensusError>,
) -> bool {
    if pre.blocks.contains_key(id) {
        &&& r is Ok
        &&& post == ServiceView { ignored: pre.ignored.push(id), ..pre }
    } else {
        &&& r matches Err(e) && e is UnknownBlock
        &&& post == pre
    }
}

/// Exact transition of `fail_block`: the block is discarded as faulty and
/// the instruction is recorded; an unknown identifier is an `UnknownBlock`
/// and changes nothing.
pub open spec fn fail_block_spec(
    pre: ServiceView,
    id: Seq<u8>,
    post: ServiceView,
    r: Result<(), ConsensusError>,
) -> bool {
    if pre.blocks.contains_key(id) {
        &&& r is Ok
        &&& post == ServiceView { failed: pre.failed.push(id), ..pre }
    } else {
        &&& r matches Err(e) && e is UnknownBlock
        &&& post == pre
    }
}

/// The blocks that resolve a sequence of identifiers, in request order.
pub open spec fn resolved_blocks(pre: ServiceView, ids: Seq<Seq<u8>>) -> Seq<BlockView>
    recommends
        all_known(pre, ids),
{
    Seq::new(ids.len(), |i: int| pre.blocks[ids[i]])
}

/// Exact behaviour of `get_blocks`, a pure query: with every identifier
/// known, the resolved blocks come back in request order; with any unknown
/// identifier the whole call fails with `UnknownBlock`.  (This contract
/// fixes the all-or-nothing reading: no partial result is ever returned.)
pub open spec fn get_blocks_spec(
    pre: ServiceView,
    ids: Seq<Seq<u8>>,
    post: ServiceView,
    r: Result<Vec<Block>, ConsensusError>,
) -> bool {
    &&& post == pre
    &&& if all_known(pre, ids) {
        &&& r matches Ok(bs)
        &&& bs@.map_values(|b: Block| b@) == resolved_blocks(pre, ids)
    } else {
        &&& r matches Err(e) && e is UnknownBlock
    }
}

/// Exact behaviour of `get_chain_head`, a pure query: the current best
/// committed block, or `NoChainHead` while none exists.
pub open spec fn get_chain_head_spec(
    pre: ServiceView,
    post: ServiceView,
    r: Result<Block, ConsensusError>,
) -> bool {
    &&& post == pre
    &&& match pre.chain_head {
        Some(h) => r matches Ok(b) && b@ == h,
        None => r matches Err(e) && e is NoChainHead,
    }
}

/// The entries of `m` selected by `keys`, in key order, skipping keys with
/// no entry.
pub open spec fn selected_entries<V>(m: Map<Seq<char>, V>, keys: Seq<Seq<char>>) -> Seq<
    (Seq<char>, V),
>
    decreases keys.len(),
{
    if keys.len() == 0 {
        Seq::empty()
    } else {
        selected_entries(m, keys.drop_last()) + if m.contains_key(keys.last()) {
            seq![(keys.last(), m[keys.last()])]
        } else {
            Seq::empty()
        }
    }
}

/// Exact behaviour of `get_settings`, a pure query: ledger configuration
/// entries for the requested keys as of a known block, skipping absent keys;
/// an unknown block identifier is an `UnknownBlock`.
pub open spec fn get_settings_spec(
    pre: ServiceView,
    block_id: Seq<u8>,
    keys: Seq<Seq<char>>,
    post: ServiceView,
    r: Result<Vec<(String, String)>, ConsensusError>,
) -> bool {
    &&& post == pre
    &&& if pre.blocks.contains_key(block_id) {
        &&& r matches Ok(entries)
        &&& entries@.map_values(|p: (String, String)| (p.0@, p.1@)) == selected_entries(
            pre.settings,
            keys,
        )
    } else {
        &&& r matches Err(e) && e is UnknownBlock
    }
}

/// Exact behaviour of `get_state`, a pure query: ledger state entries for
/// the requested addresses as of a known block, skipping absent addresses;
/// an unknown block identifier is an `UnknownBlock`.
pub open spec fn get_state_spec(
    pre: ServiceView,
    block_id: Seq<u8>,
    addresses: Seq<Seq<char>>,
    post: ServiceView,
    r: Result<Vec<(String, Vec<u8>)>, ConsensusError>,
) -> bool {
    &&& post == pre
    &&& if pre.blocks.contains_key(block_id) {
        &&& r matches Ok(entries)
        &&& entries@.map_values(|p: (String, Vec<u8>)| (p.0@, p.1@)) == selected_entries(
            pre.ledger_state,
            addresses,
        )
    } else {
        &&& r matches Err(e) && e is UnknownBlock
    }
}

/// Exact transition of `send_to`: the message is handed to the transport
/// addressed to the named peer and recorded; an unknown peer is an
/// `UnknownPeer` and changes nothing.  Delivery itself is best-effort and
/// not observable here.
pub open spec fn send_to_spec(
    pre: ServiceView,
    peer: Seq<u8>,
    message_type: Seq<char>,
    payload: Seq<u8>,
    post: ServiceView,
    r: Result<(), ConsensusError>,
) -> bool {
    if pre.peers.contains(peer) {
        &&& r is Ok
        &&& post == ServiceView {
            sent: pre.sent.push(
                SentMessageView { receiver: Some(peer), message_type, payload },
            ),
            ..pre
        }
    } else {
        &&& r matches Err(e) && e is UnknownPeer
        &&& post == pre
    }
}

/// Exact transition of `broadcast`: the message is handed to the transport
/// for every peer and recorded.  Delivery is best-effort, so the call itself
/// always succeeds.
pub open spec fn broadcast_spec(
    pre: ServiceView,
    message_type: Seq<char>,
    payload: Seq<u8>,
    post: ServiceView,
    r: Result<(), ConsensusError>,
) -> bool {
    &&& r is Ok
    &&& post == ServiceView {
        sent: pre.sent.push(SentMessageView { receiver: None, message_type, payload }),
        ..pre
    }
}

/// The service facade.  The host implements it; the engine performs every
/// side-effecting and query operation through it, synchronously.  Each
/// operation's effect on the abstract host state is pinned down by the
/// transition predicate named in its contract.
pub trait Service: View<V = ServiceView> + Sized {
    /// Hands opaque bytes to the transport for one peer.
    fn send_to(&mut self, peer: &PeerId, message_type: &str, payload: Vec<u8>) -> (r: Result<
        (),
        ConsensusError,
    >)
        requires
            old(self)@.wf(),
        ensures
            final(self)@.wf(),
            send_to_spec(old(self)@, peer@, message_type@, payload@, final(self)@, r),
    ;

    /// Hands opaque bytes to the transport for every peer.
    fn broadcast(&mut self, message_type: &str, payload: Vec<u8>) -> (r: Result<
        (),
        ConsensusError,
    >)
        requires
            old(self)@.wf(),
        ensures
            final(self)@.wf(),
            broadcast_spec(old(self)@, message_type@, payload@, final(self)@, r),
    ;

    /// Starts a block candidate on the named parent, or on the current chain
    /// head when `previous_id` is `None`.
    fn initialize_block(&mut self, previous_id: Option<BlockId>) -> (r: Result<
        (),
        ConsensusError,
    >)
        requires
            old(self)@.wf(),
        ensures
            final(self)@.wf(),
            initialize_block_spec(
                old(self)@,
                match previous_id {
                    Some(p) => Some(p@),
                    None => None,
                },
                final(self)@,
                r,
            ),
    ;

    /// Computes the content digest over everything added to the candidate so
    /// far.
    fn summarize_block(&mut self) -> (r: Result<Vec<u8>, ConsensusError>)
        requires
            old(self)@.wf(),
        ensures
            final(self)@.wf(),
            summarize_block_spec(old(self)@, final(self)@, r),
    ;

    /// Seals the candidate with engine-supplied consensus metadata, yielding
    /// the finalized block's identifier.
    fn finalize_block(&mut self, data: Vec<u8>) -> (r: Result<BlockId, ConsensusError>)
        requires
            old(self)@.wf(),
        ensures
            final(self)@.wf(),
            finalize_block_spec(old(self)@, data@, final(self)@, r),
    ;

    /// Aborts the candidate in progress.
    fn cancel_block(&mut self) -> (r: Result<(), ConsensusError>)
        requires
            old(self)@.wf(),
        ensures
            final(self)@.wf(),
            cancel_block_spec(old(self)@, final(self)@, r),
    ;

    /// Asks the host to validate the given blocks; results arrive later as
    /// `BlockValid`/`BlockInvalid` updates.
    fn check_blocks(&mut self, priority: Vec<BlockId>) -> (r: Result<(), ConsensusError>)
        requires
            old(self)@.wf(),
        ensures
            final(self)@.wf(),
            check_blocks_spec(
                old(self)@,
                priority@.map_values(|id: BlockId| id@),
                final(self)@,
                r,
            ),
    ;

    /// Instructs the host to commit a validated block to the permanent
    /// chain.
    fn commit_block(&mut self, block_id: BlockId) -> (r: Result<(), ConsensusError>)
        requires
            old(self)@.wf(),
        ensures
            final(self)@.wf(),
            commit_block_spec(old(self)@, block_id@, final(self)@, r),
    ;

    /// Instructs the host to discard a block without penalty.
    fn ignore_block(&mut self, block_id: BlockId) -> (r: Result<(), ConsensusError>)
        requires
            old(self)@.wf(),
        ensures
            final(self)@.wf(),
            ignore_block_spec(old(self)@, block_id@, final(self)@, r),
    ;

    /// Instructs the host to discard a block as faulty.
    fn fail_block(&mut self, block_id: BlockId) -> (r: Result<(), ConsensusError>)
        requires
            old(self)@.wf(),
        ensures
            final(self)@.wf(),
            fail_block_spec(old(self)@, block_id@, final(self)@, r),
    ;

    /// Resolves identifiers to blocks, all or nothing.
    fn get_blocks(&mut self, block_ids: Vec<BlockId>) -> (r: Result<Vec<Block>, ConsensusError>)
        requires
            old(self)@.wf(),
        ensures
            final(self)@.wf(),
            get_blocks_spec(
                old(self)@,
                block_ids@.map_values(|id: BlockId| id@),
                final(self)@,
                r,
            ),
    ;

    /// The current best committed block.
    fn get_chain_head(&mut self) -> (r: Result<Block, ConsensusError>)
        requires
            old(self)@.wf(),
        ensures
            final(self)@.wf(),
            get_chain_head_spec(old(self)@, final(self)@, r),
    ;

    /// Ledger configuration entries for the given keys as of a known block.
    fn get_settings(&mut self, block_id: BlockId, keys: Vec<String>) -> (r: Result<
        Vec<(String, String)>,
        ConsensusError,
    >)
        requires
            old(self)@.wf(),
        ensures
            final(self)@.wf(),
            get_settings_spec(
                old(self)@,
                block_id@,
                keys@.map_values(|k: String| k@),
                final(self)@,
                r,
            ),
    ;

    /// Ledger state entries for the given addresses as of a known block.
    fn get_state(&mut self, block_id: BlockId, addresses: Vec<String>) -> (r: Result<
        Vec<(String, Vec<u8>)>,
        ConsensusError,
    >)
        requires
            old(self)@.wf(),
        ensures
            final(self)@.wf(),
            get_state_spec(
                old(self)@,
                block_id@,
                addresses@.map_values(|a: String| a@),
                final(self)@,
                r,
            ),
    ;
}

} // verus!
