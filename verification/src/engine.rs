//! The consensus engine: the trait every engine implements, and a reference
//! engine whose event loop and per-update decisions are verified against the
//! service facade's contracts.

use vstd::prelude::*;

use crate::channel::UpdateSource;
use crate::error::ConsensusError;
use crate::service::{SentMessageView, Service, ServiceView};
use crate::types::{
    clone_bytes, lemma_bytes_eq, Block, BlockId, BlockView, Identity, IdentityView, StartupState,
    Update, UpdateView,
};

verus! {

use vstd::std_specs::cmp::PartialEqSpec;

/// A pluggable consensus engine.  The host constructs one engine instance,
/// hands it the receiving end of the update channel, a service handle and a
/// startup snapshot, and runs `start` until clean shutdown or a fatal error.
///
/// The `start` contract is the obligation of every conforming engine:
/// updates are consumed strictly in delivery order, the first `Shutdown`
/// ends the run with `Ok`, and no update is ever consumed after it.  An
/// error return consumes no `Shutdown` at all.  And success is owed where
/// nothing can fail: a run whose very first update is `Shutdown` has no
/// work to do and must return `Ok`.
pub trait ConsensusEngine: Sized {
    /// The identity `get_identity` reports.
    spec fn identity_view(&self) -> IdentityView;

    /// Runs the event loop until shutdown or an unrecoverable error.
    fn start<U: UpdateSource, S: Service>(
        &mut self,
        updates: &mut U,
        service: &mut S,
        startup_state: StartupState,
    ) -> (r: Result<(), ConsensusError>)
        requires
            old(service)@.wf(),
            old(service)@.phase is Idle,
        ensures
            exists|k: int|
                {
                    &&& 0 <= k <= old(updates).pending().len()
                    &&& final(updates).pending() == old(updates).pending().skip(k)
                    &&& forall|i: int|
                        0 <= i < k ==> ((#[trigger] old(updates).pending()[i])@ is Shutdown <==> (
                        r is Ok && i == k - 1))
                    &&& (r is Ok ==> k >= 1)
                },
            old(updates).pending().len() > 0 && old(updates).pending()[0]@ is Shutdown ==> r is Ok,
    ;

    /// Static metadata of this engine implementation; stateless, available
    /// at any time.
    fn get_identity(&self) -> (r: Identity)
        ensures
            r@ == self.identity_view(),
    ;
}

/// Whether some block in `s` carries the identifier `id`.
pub open spec fn blocks_contain(s: Seq<BlockView>, id: Seq<u8>) -> bool {
    exists|i: int| 0 <= i < s.len() && (#[trigger] s[i]).block_id == id
}

/// `s` with every block carrying the identifier `id` removed.
pub open spec fn blocks_without(s: Seq<BlockView>, id: Seq<u8>) -> Seq<BlockView>
    decreases s.len(),
{
    if s.len() == 0 {
        Seq::empty()
    } else {
        blocks_without(s.drop_last(), id) + if s.last().block_id != id {
            seq![s.last()]
        } else {
            Seq::empty()
        }
    }
}

/// `s` with every occurrence of the identifier `id` removed.
pub open spec fn without_id(s: Seq<Seq<u8>>, id: Seq<u8>) -> Seq<Seq<u8>>
    decreases s.len(),
{
    if s.len() == 0 {
        Seq::empty()
    } else {
        without_id(s.drop_last(), id) + if s.last() != id {
            seq![s.last()]
        } else {
            Seq::empty()
        }
    }
}

/// The first block in `s` carrying the identifier `id`, if any.
pub open spec fn first_with_id(s: Seq<BlockView>, id: Seq<u8>) -> Option<BlockView>
    decreases s.len(),
{
    if s.len() == 0 {
        None
    } else {
        match first_with_id(s.drop_last(), id) {
            Some(b) => Some(b),
            None => if s.last().block_id == id {
                Some(s.last())
            } else {
                None
            },
        }
    }
}

/// The updates that the reference policy settles entirely by itself,
/// without a service call: peer connects and disconnects, peer messages of
/// an unrecognized type, and invalidation notices.  Handling one can never
/// fail.
pub open spec fn handled_locally(u: UpdateView) -> bool {
    match u {
        UpdateView::PeerConnected(_) => true,
        UpdateView::PeerDisconnected(_) => true,
        UpdateView::PeerMessage(m, _) => m.header.message_type != "propose"@,
        UpdateView::BlockInvalid(_) => true,
        _ => false,
    }
}

/// The block `first_with_id` hands back carries the requested identifier
/// and comes from the sequence.
pub proof fn lemma_first_with_id_props(s: Seq<BlockView>, id: Seq<u8>)
    ensures
        first_with_id(s, id) matches Some(b) ==> b.block_id == id && blocks_contain(s, id),
    decreases s.len(),
{
    if s.len() > 0 {
        lemma_first_with_id_props(s.drop_last(), id);
        if first_with_id(s.drop_last(), id) matches Some(b) {
            let j = choose|j: int|
                0 <= j < s.drop_last().len() && (#[trigger] s.drop_last()[j]).block_id == id;
            assert(s[j] == s.drop_last()[j]);
        } else if s.last().block_id == id {
            assert(s[s.len() - 1] == s.last());
        }
    }
}

/// `first_with_id` finds a block exactly when one carries the identifier.
pub proof fn lemma_first_with_id_absent(s: Seq<BlockView>, id: Seq<u8>)
    ensures
        (first_with_id(s, id) is None) <==> !blocks_contain(s, id),
    decreases s.len(),
{
    if s.len() > 0 {
        lemma_first_with_id_absent(s.drop_last(), id);
        assert(s[s.len() - 1] == s.last());
        if blocks_contain(s, id) && !blocks_contain(s.drop_last(), id) {
            let j = choose|j: int| 0 <= j < s.len() && (#[trigger] s[j]).block_id == id;
            if j < s.len() - 1 {
                assert(s.drop_last()[j] == s[j]);
            }
        }
    }
}

/// Removing an identifier that occurs nowhere changes nothing.
pub proof fn lemma_blocks_without_absent(s: Seq<BlockView>, id: Seq<u8>)
    requires
        !blocks_contain(s, id),
    ensures
        blocks_without(s, id) == s,
    decreases s.len(),
{
    if s.len() > 0 {
        assert(s[s.len() - 1] == s.last());
        assert(forall|j: int|
            0 <= j < s.drop_last().len() ==> s.drop_last()[j] == (#[trigger] s[j]));
        lemma_blocks_without_absent(s.drop_last(), id);
        assert(blocks_without(s, id) =~= s);
    }
}

/// Appending one identifier to a sequence inserts it into the set of its
/// elements.
pub proof fn lemma_to_set_push(s: Seq<Seq<u8>>, x: Seq<u8>)
    ensures
        s.push(x).to_set() == s.to_set().insert(x),
{
    let t = s.push(x);
    assert(t[s.len() as int] == x);
    assert forall|a: Seq<u8>| t.to_set().contains(a) implies s.to_set().insert(x).contains(
        a,
    ) by {
        if a != x {
            let j = choose|j: int| 0 <= j < t.len() && t[j] == a;
            assert(s[j] == a);
        }
    }
    assert forall|a: Seq<u8>| s.to_set().insert(x).contains(a) implies t.to_set().contains(
        a,
    ) by {
        if a != x {
            let j = choose|j: int| 0 <= j < s.len() && s[j] == a;
            assert(t[j] == a);
        }
    }
    assert(t.to_set() =~= s.to_set().insert(x));
}

/// Whether a sequence of byte identifiers contains `id`.
fn ids_contain(v: &Vec<Vec<u8>>, id: &Vec<u8>) -> (r: bool)
    ensures
        r == v@.map_values(|x: Vec<u8>| x@).contains(id@),
{
    let ghost vs = v@.map_values(|x: Vec<u8>| x@);
    let mut i: usize = 0;
    while i < v.len()
        invariant
            i <= v.len(),
            vs == v@.map_values(|x: Vec<u8>| x@),
            forall|l: int| 0 <= l < i ==> (#[trigger] vs[l]) != id@,
        decreases v.len() - i,
    {
        let hit = v[i] == *id;
        proof {
            lemma_bytes_eq(v@[i as int], *id);
        }
        if hit {
            proof {
                assert(vs[i as int] == id@);
            }
            return true;
        }
        i = i + 1;
    }
    proof {
        assert(forall|l: int| 0 <= l < vs.len() ==> (#[trigger] vs[l]) != id@);
    }
    false
}

/// Whether some block in the vector carries the identifier `id`.
fn blocks_contain_exec(v: &Vec<Block>, id: &Vec<u8>) -> (r: bool)
    ensures
        r == blocks_contain(v@.map_values(|b: Block| b@), id@),
{
    let ghost vs = v@.map_values(|b: Block| b@);
    let mut i: usize = 0;
    while i < v.len()
        invariant
            i <= v.len(),
            vs == v@.map_values(|b: Block| b@),
            forall|l: int| 0 <= l < i ==> (#[trigger] vs[l]).block_id != id@,
        decreases v.len() - i,
    {
        let hit = v[i].block_id == *id;
        proof {
            lemma_bytes_eq(v@[i as int].block_id, *id);
        }
        if hit {
            proof {
                assert(vs[i as int].block_id == id@);
            }
            return true;
        }
        i = i + 1;
    }
    false
}

/// Removes every occurrence of `id`, keeping the order of the rest.
fn remove_id(v: &mut Vec<Vec<u8>>, id: &Vec<u8>)
    ensures
        final(v)@.map_values(|x: Vec<u8>| x@) == without_id(
            old(v)@.map_values(|x: Vec<u8>| x@),
            id@,
        ),
{
    let ghost vs = old(v)@.map_values(|x: Vec<u8>| x@);
    let mut keep: Vec<Vec<u8>> = Vec::new();
    let mut i: usize = 0;
    while i < v.len()
        invariant
            i <= v.len(),
            v@ == old(v)@,
            vs == old(v)@.map_values(|x: Vec<u8>| x@),
            keep@.map_values(|x: Vec<u8>| x@) == without_id(vs.take(i as int), id@),
        decreases v.len() - i,
    {
        let ghost keep_before = keep@;
        proof {
            assert(vs.take(i + 1).drop_last() =~= vs.take(i as int));
            assert(vs.take(i + 1).last() == vs[i as int]);
        }
        let differs = !(v[i] == *id);
        proof {
            lemma_bytes_eq(v@[i as int], *id);
        }
        if differs {
            keep.push(clone_bytes(&v[i]));
            proof {
                assert(keep@.map_values(|x: Vec<u8>| x@) =~= keep_before.map_values(
                    |x: Vec<u8>| x@,
                ).push(vs[i as int]));
                assert(without_id(vs.take(i + 1), id@) =~= without_id(vs.take(i as int), id@).push(
                    vs[i as int],
                ));
            }
        } else {
            proof {
                assert(without_id(vs.take(i + 1), id@) =~= without_id(vs.take(i as int), id@));
            }
        }
        i = i + 1;
    }
    proof {
        assert(vs.take(old(v)@.len() as int) =~= vs);
    }
    *v = keep;
}

/// Removes every block carrying `id`, handing back the first removed one.
fn extract_block(v: &mut Vec<Block>, id: &Vec<u8>) -> (r: Option<Block>)
    ensures
        final(v)@.map_values(|b: Block| b@) == blocks_without(
            old(v)@.map_values(|b: Block| b@),
            id@,
        ),
        match r {
            Some(b) => first_with_id(old(v)@.map_values(|b: Block| b@), id@) == Some(b@),
            None => first_with_id(old(v)@.map_values(|b: Block| b@), id@) is None,
        },
{
    let ghost vs = old(v)@.map_values(|b: Block| b@);
    let mut keep: Vec<Block> = Vec::new();
    let mut found: Option<Block> = None;
    let mut i: usize = 0;
    while i < v.len()
        invariant
            i <= v.len(),
            v@ == old(v)@,
            vs == old(v)@.map_values(|b: Block| b@),
            keep@.map_values(|b: Block| b@) == blocks_without(vs.take(i as int), id@),
            match found {
                Some(b) => first_with_id(vs.take(i as int), id@) == Some(b@),
                None => first_with_id(vs.take(i as int), id@) is None,
            },
        decreases v.len() - i,
    {
        let ghost keep_before = keep@;
        proof {
            assert(vs.take(i + 1).drop_last() =~= vs.take(i as int));
            assert(vs.take(i + 1).last() == vs[i as int]);
        }
        let matches_id = v[i].block_id == *id;
        proof {
            lemma_bytes_eq(v@[i as int].block_id, *id);
        }
        if matches_id {
            if found.is_none() {
                found = Some(v[i].clone());
            }
            proof {
                assert(blocks_without(vs.take(i + 1), id@) =~= blocks_without(
                    vs.take(i as int),
                    id@,
                ));
            }
        } else {
            keep.push(v[i].clone());
            proof {
                assert(keep@.map_values(|b: Block| b@) =~= keep_before.map_values(
                    |b: Block| b@,
                ).push(vs[i as int]));
                assert(blocks_without(vs.take(i + 1), id@) =~= blocks_without(
                    vs.take(i as int),
                    id@,
                ).push(vs[i as int]));
            }
        }
        i = i + 1;
    }
    proof {
        assert(vs.take(old(v)@.len() as int) =~= vs);
    }
    *v = keep;
    found
}

/// Mathematical view of the reference engine's working state.
#[verifier::ext_equal]
pub struct EngineCoreView {
    pub head: BlockView,
    pub peers: Seq<Seq<u8>>,
    pub pending: Seq<BlockView>,
    pub ready: Seq<BlockView>,
    pub invalid: Set<Seq<u8>>,
}

impl EngineCoreView {
    /// No block still under consideration carries an invalidated
    /// identifier.
    pub open spec fn inv(self) -> bool {
        &&& forall|i: int|
            0 <= i < self.pending.len() ==> !self.invalid.contains(
                (#[trigger] self.pending[i]).block_id,
            )
        &&& forall|i: int|
            0 <= i < self.ready.len() ==> !self.invalid.contains(
                (#[trigger] self.ready[i]).block_id,
            )
    }
}

/// The reference engine's working state: its notion of the chain head, the
/// current peer set, the blocks whose validation it has requested, the
/// validated blocks queued for commit, and the identifiers reported invalid.
pub struct EngineCore {
    pub head: Block,
    pub peers: Vec<Vec<u8>>,
    pub pending: Vec<Block>,
    pub ready: Vec<Block>,
    pub invalid: Vec<BlockId>,
}

impl View for EngineCore {
    type V = EngineCoreView;

    open spec fn view(&self) -> EngineCoreView {
        EngineCoreView {
            head: self.head@,
            peers: self.peers@.map_values(|p: Vec<u8>| p@),
            pending: self.pending@.map_values(|b: Block| b@),
            ready: self.ready@.map_values(|b: Block| b@),
            invalid: self.invalid@.map_values(|id: BlockId| id@).to_set(),
        }
    }
}

impl EngineCore {
    /// A fresh engine state adopting the startup snapshot: the snapshot's
    /// chain head and peers, nothing in flight.
    pub fn new(startup_state: StartupState) -> (r: Self)
        ensures
            r@.head == startup_state.chain_head@,
            r@.peers == startup_state@.peers,
            r@.pending == Seq::<BlockView>::empty(),
            r@.ready == Seq::<BlockView>::empty(),
            r@.invalid == Set::<Seq<u8>>::empty(),
            r@.inv(),
    {
        let StartupState { chain_head, peers, local_peer_info: _ } = startup_state;
        let ghost peer_views = peers@.map_values(|p: crate::types::PeerInfo| p@);
        let mut peer_ids: Vec<Vec<u8>> = Vec::new();
        let mut i: usize = 0;
        while i < peers.len()
            invariant
                i <= peers.len(),
                peers@.map_values(|p: crate::types::PeerInfo| p@) == peer_views,
                peer_ids@.map_values(|p: Vec<u8>| p@) == peer_views.take(i as int),
            decreases peers.len() - i,
        {
            let ghost ids_before = peer_ids@;
            peer_ids.push(clone_bytes(&peers[i].peer_id));
            proof {
                assert(peer_ids@.map_values(|p: Vec<u8>| p@) =~= ids_before.map_values(
                    |p: Vec<u8>| p@,
                ).push(peer_views[i as int]));
                assert(peer_views.take(i + 1) =~= peer_views.take(i as int).push(
                    peer_views[i as int],
                ));
            }
            i = i + 1;
        }
        let r = EngineCore {
            head: chain_head,
            peers: peer_ids,
            pending: Vec::new(),
            ready: Vec::new(),
            invalid: Vec::new(),
        };
        proof {
            assert(peer_views.take(peers@.len() as int) =~= peer_views);
            assert(r@.pending =~= Seq::<BlockView>::empty());
            assert(r@.ready =~= Seq::<BlockView>::empty());
            assert(r@.invalid =~= Set::<Seq<u8>>::empty());
        }
        r
    }

    /// Handles one update, driving the service as the reference policy
    /// prescribes, and says whether the run loop continues.
    ///
    /// The policy: peer events maintain the peer set; a peer message of type
    /// "propose" runs one build cycle (initialize on the chain head,
    /// summarize, finalize with the message content, announce the new
    /// identifier), abandoning the candidate when the host is not ready;
    /// every other message type is ignored.  A new block is recorded and
    /// handed to validation once; a validated block is committed when it
    /// extends the engine's head, otherwise queued; an invalidated block is
    /// discarded everywhere and never committed afterwards; a commit
    /// notification moves the head.  `Shutdown` stops the loop.
    pub fn handle_update<S: Service>(&mut self, update: Update, service: &mut S) -> (r: Result<
        bool,
        ConsensusError,
    >)
        requires
            old(service)@.wf(),
            old(service)@.phase is Idle,
            old(self)@.inv(),
        ensures
            final(service)@.wf(),
            final(self)@.inv(),
            r matches Ok(c) ==> (c == !(update@ is Shutdown)) && final(service)@.phase is Idle,
            old(self)@.invalid.subset_of(final(self)@.invalid),
            old(service)@.committed.len() <= final(service)@.committed.len(),
            forall|k: int|
                0 <= k < old(service)@.committed.len() ==> final(service)@.committed[k] == old(
                    service,
                )@.committed[k],
            forall|k: int|
                old(service)@.committed.len() <= k < final(service)@.committed.len()
                    ==> !final(self)@.invalid.contains(#[trigger] final(service)@.committed[k]),
            match update@ {
                UpdateView::PeerConnected(p) => {
                    &&& r == Ok::<bool, ConsensusError>(true)
                    &&& final(service)@ == old(service)@
                    &&& final(self)@ == EngineCoreView {
                        peers: if old(self)@.peers.contains(p) {
                            old(self)@.peers
                        } else {
                            old(self)@.peers.push(p)
                        },
                        ..old(self)@
                    }
                },
                UpdateView::PeerDisconnected(id) => {
                    &&& r == Ok::<bool, ConsensusError>(true)
                    &&& final(service)@ == old(service)@
                    &&& final(self)@ == EngineCoreView {
                        peers: without_id(old(self)@.peers, id),
                        ..old(self)@
                    }
                },
                UpdateView::PeerMessage(m, _sender) => {
                    &&& final(self)@ == old(self)@
                    &&& (m.header.message_type != "propose"@ ==> r == Ok::<
                        bool,
                        ConsensusError,
                    >(true) && final(service)@ == old(service)@)
                    &&& (m.header.message_type == "propose"@ ==> {
                        let pre = old(service)@;
                        &&& (pre.chain_head is None ==> ((r matches Err(e) && e is NoChainHead)
                            && final(service)@ == pre))
                        &&& (pre.chain_head matches Some(h) ==> {
                            &&& (!pre.summary_ready ==> r == Ok::<bool, ConsensusError>(true)
                                && final(service)@ == ServiceView { candidate: None, ..pre })
                            &&& (pre.summary_ready && h.block_num < u64::MAX && pre.next_id
                                < u64::MAX ==> {
                                let b = crate::service::finalized_block(pre, h, m.content);
                                &&& r == Ok::<bool, ConsensusError>(true)
                                &&& final(service)@ == ServiceView {
                                    candidate: None,
                                    blocks: pre.blocks.insert(b.block_id, b),
                                    next_id: (pre.next_id + 1) as u64,
                                    sent: pre.sent.push(
                                        SentMessageView {
                                            receiver: None,
                                            message_type: "block"@,
                                            payload: b.block_id,
                                        },
                                    ),
                                    ..pre
                                }
                            })
                        })
                    })
                },
                UpdateView::BlockNew(b) => {
                    let seen = old(self)@.invalid.contains(b.block_id) || blocks_contain(
                        old(self)@.pending,
                        b.block_id,
                    ) || blocks_contain(old(self)@.ready, b.block_id);
                    &&& (seen ==> r == Ok::<bool, ConsensusError>(true) && final(self)@ == old(
                        self,
                    )@ && final(service)@ == old(service)@)
                    &&& (!seen ==> {
                        &&& (old(service)@.blocks.contains_key(b.block_id) ==> r == Ok::<
                            bool,
                            ConsensusError,
                        >(true) && final(self)@ == EngineCoreView {
                            pending: old(self)@.pending.push(b),
                            ..old(self)@
                        } && final(service)@ == ServiceView {
                            checked: old(service)@.checked.push(b.block_id),
                            ..old(service)@
                        })
                        &&& (!old(service)@.blocks.contains_key(b.block_id) ==> (r is Err) && final(self)@ == old(self)@ && final(service)@ == old(service)@)
                    })
                },
                UpdateView::BlockValid(id) => {
                    &&& (old(self)@.invalid.contains(id) ==> r == Ok::<bool, ConsensusError>(true)
                        && final(self)@ == old(self)@ && final(service)@ == old(service)@)
                    &&& (!old(self)@.invalid.contains(id) ==> {
                        &&& (first_with_id(old(self)@.pending, id) is None ==> r == Ok::<
                            bool,
                            ConsensusError,
                        >(true) && final(self)@ == old(self)@ && final(service)@ == old(service)@)
                        &&& (first_with_id(old(self)@.pending, id) matches Some(b) ==> {
                            &&& (b.previous_id != old(self)@.head.block_id ==> r == Ok::<
                                bool,
                                ConsensusError,
                            >(true) && final(self)@ == EngineCoreView {
                                pending: blocks_without(old(self)@.pending, id),
                                ready: old(self)@.ready.push(b),
                                ..old(self)@
                            } && final(service)@ == old(service)@)
                            &&& (b.previous_id == old(self)@.head.block_id ==> {
                                &&& (old(service)@.blocks.contains_key(id) ==> r == Ok::<
                                    bool,
                                    ConsensusError,
                                >(true) && final(self)@ == EngineCoreView {
                                    pending: blocks_without(old(self)@.pending, id),
                                    ready: old(self)@.ready.push(b),
                                    ..old(self)@
                                } && final(service)@ == ServiceView {
                                    chain_head: Some(old(service)@.blocks[id]),
                                    committed: old(service)@.committed.push(id),
                                    ..old(service)@
                                })
                                &&& (!old(service)@.blocks.contains_key(id) ==> (r is Err) && final(service)@ == old(service)@)
                            })
                        })
                    })
                },
                UpdateView::BlockInvalid(id) => {
                    &&& r == Ok::<bool, ConsensusError>(true)
                    &&& final(service)@ == old(service)@
                    &&& final(self)@ == EngineCoreView {
                        pending: blocks_without(old(self)@.pending, id),
                        ready: blocks_without(old(self)@.ready, id),
                        invalid: old(self)@.invalid.insert(id),
                        ..old(self)@
                    }
                },
                UpdateView::BlockCommit(id) => {
                    let found = match first_with_id(old(self)@.ready, id) {
                        Some(b) => Some(b),
                        None => first_with_id(old(self)@.pending, id),
                    };
                    &&& final(service)@ == old(service)@
                    &&& (found matches Some(b) ==> r == Ok::<bool, ConsensusError>(true) && final(self)@ == EngineCoreView {
                        head: b,
                        pending: blocks_without(old(self)@.pending, id),
                        ready: blocks_without(old(self)@.ready, id),
                        ..old(self)@
                    })
                    &&& (found is None ==> {
                        &&& (old(service)@.chain_head matches Some(h) ==> r == Ok::<
                            bool,
                            ConsensusError,
                        >(true) && final(self)@ == EngineCoreView {
                            head: h,
                            pending: blocks_without(old(self)@.pending, id),
                            ready: blocks_without(old(self)@.ready, id),
                            ..old(self)@
                        })
                        &&& (old(service)@.chain_head is None ==> (r matches Err(e)
                            && e is NoChainHead))
                    })
                },
                UpdateView::Shutdown => {
                    &&& r == Ok::<bool, ConsensusError>(false)
                    &&& final(self)@ == old(self)@
                    &&& final(service)@ == old(service)@
                },
            },
    {
        match update {
            Update::PeerConnected(p) => {
                if !ids_contain(&self.peers, &p.peer_id) {
                    let ghost peers_before = self.peers@;
                    self.peers.push(p.peer_id);
                    proof {
                        assert(self.peers@.map_values(|q: Vec<u8>| q@) =~= peers_before.map_values(
                            |q: Vec<u8>| q@,
                        ).push(p@));
                        assert(self@ =~= EngineCoreView {
                            peers: old(self)@.peers.push(p@),
                            ..old(self)@
                        });
                    }
                } else {
                    proof {
                        assert(self@ =~= old(self)@);
                    }
                }
                Ok(true)
            },
            Update::PeerDisconnected(id) => {
                remove_id(&mut self.peers, &id);
                proof {
                    assert(self@ =~= EngineCoreView {
                        peers: without_id(old(self)@.peers, id@),
                        ..old(self)@
                    });
                }
                Ok(true)
            },
            Update::PeerMessage(m, _sender) => {
                let ghost pre = old(service)@;
                let ghost content_view = m.content@;
                let propose = "propose".to_owned();
                if !(m.header.message_type == propose) {
                    return Ok(true);
                }
                match service.initialize_block(None) {
                    Ok(()) => (),
                    Err(e) => {
                        return Err(e);
                    },
                }
                match service.summarize_block() {
                    Ok(_summary) => (),
                    Err(e) => {
                        match e {
                            ConsensusError::BlockNotReady => {
                                match service.cancel_block() {
                                    Ok(()) => {
                                        proof {
                                            assert(service@ =~= ServiceView {
                                                candidate: None,
                                                ..pre
                                            });
                                        }
                                        return Ok(true);
                                    },
                                    Err(e2) => {
                                        return Err(e2);
                                    },
                                }
                            },
                            other => {
                                return Err(other);
                            },
                        }
                    },
                }
                let id = match service.finalize_block(m.content) {
                    Ok(id) => id,
                    Err(e) => {
                        return Err(e);
                    },
                };
                match service.broadcast("block", id) {
                    Ok(()) => {
                        proof {
                            let h = pre.chain_head->0;
                            let b = crate::service::finalized_block(pre, h, content_view);
                            assert(service@ =~= ServiceView {
                                candidate: None,
                                blocks: pre.blocks.insert(b.block_id, b),
                                next_id: (pre.next_id + 1) as u64,
                                sent: pre.sent.push(
                                    SentMessageView {
                                        receiver: None,
                                        message_type: "block"@,
                                        payload: b.block_id,
                                    },
                                ),
                                ..pre
                            });
                        }
                        Ok(true)
                    },
                    Err(e) => Err(e),
                }
            },
            Update::BlockNew(b) => {
                if ids_contain(&self.invalid, &b.block_id) {
                    return Ok(true);
                }
                if blocks_contain_exec(&self.pending, &b.block_id) {
                    return Ok(true);
                }
                if blocks_contain_exec(&self.ready, &b.block_id) {
                    return Ok(true);
                }
                let mut ids: Vec<BlockId> = Vec::new();
                ids.push(clone_bytes(&b.block_id));
                proof {
                    assert(ids@.map_values(|x: BlockId| x@) =~= seq![b.block_id@]);
                }
                match service.check_blocks(ids) {
                    Ok(()) => {
                        proof {
                            assert(crate::service::all_known(old(service)@, seq![b.block_id@]));
                            assert(seq![b.block_id@][0] == b.block_id@);
                            assert(old(service)@.blocks.contains_key(b.block_id@));
                        }
                        let ghost pending_before = self.pending@;
                        proof {
                            assert(old(service)@.checked + seq![b.block_id@] =~= old(
                                service,
                            )@.checked.push(b.block_id@));
                        }
                        self.pending.push(b);
                        proof {
                            assert(self.pending@.map_values(|x: Block| x@) =~= pending_before
                                .map_values(|x: Block| x@).push(self.pending@.last()@));
                            assert(self@ =~= EngineCoreView {
                                pending: old(self)@.pending.push(self.pending@.last()@),
                                ..old(self)@
                            });
                        }
                        Ok(true)
                    },
                    Err(e) => {
                        proof {
                            let ids_view = seq![b.block_id@];
                            assert(!crate::service::all_known(old(service)@, ids_view));
                            let j = choose|j: int|
                                0 <= j < ids_view.len() && !old(service)@.blocks.contains_key(
                                    #[trigger] ids_view[j],
                                );
                            assert(ids_view[j] == b.block_id@);
                        }
                        Err(e)
                    },
                }
            },
            Update::BlockValid(id) => {
                if ids_contain(&self.invalid, &id) {
                    return Ok(true);
                }
                let found = extract_block(&mut self.pending, &id);
                proof {
                    lemma_blocks_without_drops(old(self)@.pending, id@);
                    lemma_first_with_id_props(old(self)@.pending, id@);
                    lemma_first_with_id_absent(old(self)@.pending, id@);
                }
                let b = match found {
                    None => {
                        proof {
                            lemma_blocks_without_absent(old(self)@.pending, id@);
                            assert(self@ =~= old(self)@);
                        }
                        return Ok(true);
                    },
                    Some(b) => b,
                };
                let extends_head = b.previous_id == self.head.block_id;
                proof {
                    lemma_bytes_eq(b.previous_id, self.head.block_id);
                }
                if extends_head {
                    match service.commit_block(clone_bytes(&id)) {
                        Ok(()) => (),
                        Err(e) => {
                            return Err(e);
                        },
                    }
                }
                let ghost ready_before = self.ready@;
                let ghost bv = b@;
                self.ready.push(b);
                proof {
                    assert(self.ready@.map_values(|x: Block| x@) =~= ready_before.map_values(
                        |x: Block| x@,
                    ).push(bv));
                    assert(self@ =~= EngineCoreView {
                        pending: blocks_without(old(self)@.pending, id@),
                        ready: old(self)@.ready.push(bv),
                        ..old(self)@
                    });
                }
                Ok(true)
            },
            Update::BlockInvalid(id) => {
                extract_block(&mut self.pending, &id);
                extract_block(&mut self.ready, &id);
                let ghost invalid_before = self.invalid@;
                self.invalid.push(id);
                proof {
                    assert(self.invalid@.map_values(|x: BlockId| x@) =~= invalid_before.map_values(
                        |x: BlockId| x@,
                    ).push(self.invalid@.last()@));
                    lemma_to_set_push(
                        invalid_before.map_values(|x: BlockId| x@),
                        self.invalid@.last()@,
                    );
                    assert(self.invalid@.map_values(|x: BlockId| x@).to_set()
                        == invalid_before.map_values(|x: BlockId| x@).to_set().insert(
                        self.invalid@.last()@,
                    ));
                    assert(self@ =~= EngineCoreView {
                        pending: blocks_without(old(self)@.pending, self.invalid@.last()@),
                        ready: blocks_without(old(self)@.ready, self.invalid@.last()@),
                        invalid: old(self)@.invalid.insert(self.invalid@.last()@),
                        ..old(self)@
                    });
                    lemma_blocks_without_drops(old(self)@.pending, self.invalid@.last()@);
                    lemma_blocks_without_drops(old(self)@.ready, self.invalid@.last()@);
                }
                Ok(true)
            },
            Update::BlockCommit(id) => {
                let from_ready = extract_block(&mut self.ready, &id);
                let from_pending = extract_block(&mut self.pending, &id);
                proof {
                    lemma_blocks_without_drops(old(self)@.pending, id@);
                    lemma_blocks_without_drops(old(self)@.ready, id@);
                    lemma_first_with_id_props(old(self)@.pending, id@);
                    lemma_first_with_id_props(old(self)@.ready, id@);
                }
                let new_head = match from_ready {
                    Some(b) => b,
                    None => {
                        match from_pending {
                            Some(b) => b,
                            None => {
                                match service.get_chain_head() {
                                    Ok(h) => h,
                                    Err(e) => {
                                        return Err(e);
                                    },
                                }
                            },
                        }
                    },
                };
                let ghost hv = new_head@;
                self.head = new_head;
                proof {
                    assert(self@ =~= EngineCoreView {
                        head: hv,
                        pending: blocks_without(old(self)@.pending, id@),
                        ready: blocks_without(old(self)@.ready, id@),
                        ..old(self)@
                    });
                }
                Ok(true)
            },
            Update::Shutdown => Ok(false),
        }
    }
}

/// What `blocks_without` keeps: exactly the blocks with another identifier,
/// in order; in particular every kept block was already there.
pub proof fn lemma_blocks_without_drops(s: Seq<BlockView>, id: Seq<u8>)
    ensures
        forall|i: int|
            0 <= i < blocks_without(s, id).len() ==> (#[trigger] blocks_without(s, id)[i]).block_id
                != id && blocks_contain(s, blocks_without(s, id)[i].block_id),
    decreases s.len(),
{
    if s.len() > 0 {
        lemma_blocks_without_drops(s.drop_last(), id);
        assert(forall|i: int|
            0 <= i < s.drop_last().len() ==> s.drop_last()[i] == s[i] && blocks_contain(
                s.drop_last(),
                s.drop_last()[i].block_id,
            ) ==> blocks_contain(s, s.drop_last()[i].block_id));
        assert forall|i: int| 0 <= i < blocks_without(s, id).len() implies (#[trigger] blocks_without(
            s,
            id,
        )[i]).block_id != id && blocks_contain(s, blocks_without(s, id)[i].block_id) by {
            let w = blocks_without(s, id);
            let wprev = blocks_without(s.drop_last(), id);
            if i < wprev.len() {
                assert(w[i] == wprev[i]);
                let j = choose|j: int|
                    0 <= j < s.drop_last().len() && (#[trigger] s.drop_last()[j]).block_id
                        == wprev[i].block_id;
                assert(s[j] == s.drop_last()[j]);
            } else {
                assert(w[i] == s.last());
                assert(s[s.len() - 1] == s.last());
            }
        }
    }
}

/// The reference engine: identity metadata plus the verified event loop.
pub struct ReferenceEngine {
    pub name: String,
    pub version: String,
}

impl ReferenceEngine {
    /// An engine that will report the given name and version.
    pub fn new(name: String, version: String) -> (r: Self)
        ensures
            r.identity_view() == (IdentityView { name: name@, version: version@ }),
    {
        ReferenceEngine { name, version }
    }
}

impl ConsensusEngine for ReferenceEngine {
    open spec fn identity_view(&self) -> IdentityView {
        IdentityView { name: self.name@, version: self.version@ }
    }

    fn start<U: UpdateSource, S: Service>(
        &mut self,
        updates: &mut U,
        service: &mut S,
        startup_state: StartupState,
    ) -> (r: Result<(), ConsensusError>)
        ensures
            forall|k0: int|
                0 <= k0 < old(updates).pending().len() && (#[trigger] old(
                    updates,
                ).pending()[k0])@ is Shutdown && (forall|i: int|
                    0 <= i < k0 ==> handled_locally((#[trigger] old(updates).pending()[i])@))
                    ==> r is Ok,
            (forall|i: int|
                0 <= i < old(updates).pending().len() ==> handled_locally(
                    (#[trigger] old(updates).pending()[i])@,
                ) && !(old(updates).pending()[i]@ is Shutdown)) ==> (r matches Err(e)
                && e is ReceiveError),
    {
        let mut core = EngineCore::new(startup_state);
        let ghost mut consumed: int = 0;
        loop
            invariant
                service@.wf(),
                service@.phase is Idle,
                core@.inv(),
                0 <= consumed <= old(updates).pending().len(),
                updates.pending() == old(updates).pending().skip(consumed),
                forall|i: int|
                    0 <= i < consumed ==> !((#[trigger] old(updates).pending()[i])@ is Shutdown),
            decreases updates.pending().len(),
        {
            match updates.next_update() {
                None => {
                    proof {
                        assert(updates.pending() =~= old(updates).pending().skip(consumed));
                    }
                    return Err(
                        ConsensusError::ReceiveError(
                            "update channel closed before shutdown".to_owned(),
                        ),
                    );
                },
                Some(u) => {
                    let ghost uv = u@;
                    proof {
                        assert(old(updates).pending().skip(consumed).drop_first() =~= old(
                            updates,
                        ).pending().skip(consumed + 1));
                        assert(old(updates).pending()[consumed] == old(updates).pending().skip(
                            consumed,
                        )[0]);
                    }
                    match core.handle_update(u, service) {
                        Ok(true) => {
                            proof {
                                consumed = consumed + 1;
                            }
                        },
                        Ok(false) => {
                            proof {
                                consumed = consumed + 1;
                                assert(old(updates).pending()[consumed - 1]@ is Shutdown);
                            }
                            return Ok(());
                        },
                        Err(e) => {
                            proof {
                                consumed = consumed + 1;
                                assert(!(uv is Shutdown));
                                assert(!handled_locally(uv));
                                assert(old(updates).pending()[consumed - 1]@ == uv);
                            }
                            return Err(e);
                        },
                    }
                },
            }
        }
    }

    fn get_identity(&self) -> (r: Identity) {
        Identity { name: self.name.clone(), version: self.version.clone() }
    }
}

} // verus!
