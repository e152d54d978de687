//! A verified reference host behind the service facade: a test double that
//! implements every service operation exactly as the transition predicates
//! describe, suitable for driving an engine without a real ledger.

use vstd::prelude::*;

use crate::error::ConsensusError;
use crate::service::{
    block_id_bytes, finalized_block, selected_entries, CandidatePhase, SentMessageView, Service,
    ServiceView,
};
use crate::types::{clone_bytes, lemma_bytes_eq, Block, BlockId, PeerId};

verus! {

use vstd::std_specs::cmp::PartialEqSpec;

/// The finite map described by an association list, later entries shadowing
/// earlier ones with the same key.
pub open spec fn assoc_map<K, V>(s: Seq<(K, V)>) -> Map<K, V>
    decreases s.len(),
{
    if s.len() == 0 {
        Map::empty()
    } else {
        assoc_map(s.drop_last()).insert(s.last().0, s.last().1)
    }
}

/// A key that occurs nowhere in the list is absent from its map.
pub proof fn lemma_assoc_map_absent<K, V>(s: Seq<(K, V)>, k: K)
    requires
        forall|i: int| 0 <= i < s.len() ==> (#[trigger] s[i]).0 != k,
    ensures
        !assoc_map(s).contains_key(k),
    decreases s.len(),
{
    if s.len() > 0 {
        assert(s.last() == s[s.len() - 1]);
        lemma_assoc_map_absent(s.drop_last(), k);
    }
}

/// The last entry for a key gives its value in the map.
pub proof fn lemma_assoc_map_found<K, V>(s: Seq<(K, V)>, k: K, j: int)
    requires
        0 <= j < s.len(),
        s[j].0 == k,
        forall|l: int| j < l < s.len() ==> (#[trigger] s[l]).0 != k,
    ensures
        assoc_map(s).contains_key(k),
        assoc_map(s)[k] == s[j].1,
    decreases s.len(),
{
    assert(s.last() == s[s.len() - 1]);
    if j == s.len() - 1 {
    } else {
        lemma_assoc_map_found(s.drop_last(), k, j);
    }
}

/// Appending one entry updates the map by that entry.
pub proof fn lemma_assoc_map_push<K, V>(s: Seq<(K, V)>, k: K, v: V)
    ensures
        assoc_map(s.push((k, v))) == assoc_map(s).insert(k, v),
{
    let t = s.push((k, v));
    assert(t.drop_last() =~= s);
    assert(t.last() == (k, v));
}

/// One message handed to the transport, as the reference host records it:
/// addressed to a single peer, or to everyone when `receiver` is `None`.
#[derive(Debug)]
pub struct SentMessage {
    pub receiver: Option<PeerId>,
    pub message_type: String,
    pub payload: Vec<u8>,
}

impl View for SentMessage {
    type V = SentMessageView;

    open spec fn view(&self) -> SentMessageView {
        SentMessageView {
            receiver: match &self.receiver {
                Some(p) => Some(p@),
                None => None,
            },
            message_type: self.message_type@,
            payload: self.payload@,
        }
    }
}

/// The reference host.  Its fields mirror the abstract state one for one;
/// collections are plain vectors whose views are folded into the maps, sets
/// and sequences of `ServiceView`.
pub struct ServiceModel {
    pub phase: CandidatePhase,
    pub chain_head: Option<Block>,
    pub blocks: Vec<Block>,
    pub candidate: Option<Block>,
    pub summary_ready: bool,
    pub pending_summary: Vec<u8>,
    pub next_id: u64,
    pub local_peer_id: PeerId,
    pub peers: Vec<PeerId>,
    pub settings: Vec<(String, String)>,
    pub ledger_state: Vec<(String, Vec<u8>)>,
    pub sent: Vec<SentMessage>,
    pub checked: Vec<BlockId>,
    pub committed: Vec<BlockId>,
    pub ignored: Vec<BlockId>,
    pub failed: Vec<BlockId>,
}

impl View for ServiceModel {
    type V = ServiceView;

    open spec fn view(&self) -> ServiceView {
        ServiceView {
            phase: self.phase,
            chain_head: match &self.chain_head {
                Some(b) => Some(b@),
                None => None,
            },
            blocks: assoc_map(self.blocks@.map_values(|b: Block| (b.block_id@, b@))),
            candidate: match &self.candidate {
                Some(b) => Some(b@),
                None => None,
            },
            summary_ready: self.summary_ready,
            pending_summary: self.pending_summary@,
            next_id: self.next_id,
            local_peer_id: self.local_peer_id@,
            peers: self.peers@.map_values(|p: PeerId| p@).to_set(),
            settings: assoc_map(self.settings@.map_values(|p: (String, String)| (p.0@, p.1@))),
            ledger_state: assoc_map(
                self.ledger_state@.map_values(|p: (String, Vec<u8>)| (p.0@, p.1@)),
            ),
            sent: self.sent@.map_values(|m: SentMessage| m@),
            checked: self.checked@.map_values(|id: BlockId| id@),
            committed: self.committed@.map_values(|id: BlockId| id@),
            ignored: self.ignored@.map_values(|id: BlockId| id@),
            failed: self.failed@.map_values(|id: BlockId| id@),
        }
    }
}

/// The big-endian bytes of an identifier counter value, as the reference
/// host mints block identifiers.
pub fn encode_block_id(n: u64) -> (r: Vec<u8>)
    ensures
        r@ == block_id_bytes(n),
{
    let mut r: Vec<u8> = Vec::new();
    let mut i: usize = 0;
    while i < 8
        invariant
            i <= 8,
            r@.len() == i,
            forall|j: int| 0 <= j < i ==> r@[j] == ((n >> (((7 - j) * 8) as u64)) & 0xff) as u8,
        decreases 8 - i,
    {
        let shift: u64 = ((7 - i) * 8) as u64;
        r.push(((n >> shift) & 0xff) as u8);
        i = i + 1;
    }
    proof {
        assert(r@ =~= block_id_bytes(n));
    }
    r
}

impl ServiceModel {
    /// A host that starts before any block exists: no chain head, nothing on
    /// record, the candidate machine idle.
    pub fn new_empty(local_peer_id: PeerId) -> (r: Self)
        ensures
            r@ == (ServiceView {
                phase: CandidatePhase::Idle,
                chain_head: None,
                blocks: Map::empty(),
                candidate: None,
                summary_ready: true,
                pending_summary: Seq::empty(),
                next_id: 0,
                local_peer_id: local_peer_id@,
                peers: Set::empty(),
                settings: Map::empty(),
                ledger_state: Map::empty(),
                sent: Seq::empty(),
                checked: Seq::empty(),
                committed: Seq::empty(),
                ignored: Seq::empty(),
                failed: Seq::empty(),
            }),
    {
        let r = ServiceModel {
            phase: CandidatePhase::Idle,
            chain_head: None,
            blocks: Vec::new(),
            candidate: None,
            summary_ready: true,
            pending_summary: Vec::new(),
            next_id: 0,
            local_peer_id,
            peers: Vec::new(),
            settings: Vec::new(),
            ledger_state: Vec::new(),
            sent: Vec::new(),
            checked: Vec::new(),
            committed: Vec::new(),
            ignored: Vec::new(),
            failed: Vec::new(),
        };
        proof {
            assert(r.blocks@.map_values(|b: Block| (b.block_id@, b@)) =~= Seq::empty());
            assert(r.peers@.map_values(|p: PeerId| p@) =~= Seq::empty());
            assert(r.peers@.map_values(|p: PeerId| p@).to_set() =~= Set::empty());
            assert(r.settings@.map_values(|p: (String, String)| (p.0@, p.1@)) =~= Seq::empty());
            assert(r.ledger_state@.map_values(|p: (String, Vec<u8>)| (p.0@, p.1@))
                =~= Seq::empty());
            assert(r.sent@.map_values(|m: SentMessage| m@) =~= Seq::empty());
            assert(r.checked@.map_values(|id: BlockId| id@) =~= Seq::empty());
            assert(r.committed@.map_values(|id: BlockId| id@) =~= Seq::empty());
            assert(r.ignored@.map_values(|id: BlockId| id@) =~= Seq::empty());
            assert(r.failed@.map_values(|id: BlockId| id@) =~= Seq::empty());
            assert(r@ =~= (ServiceView {
                phase: CandidatePhase::Idle,
                chain_head: None,
                blocks: Map::empty(),
                candidate: None,
                summary_ready: true,
                pending_summary: Seq::empty(),
                next_id: 0,
                local_peer_id: local_peer_id@,
                peers: Set::empty(),
                settings: Map::empty(),
                ledger_state: Map::empty(),
                sent: Seq::empty(),
                checked: Seq::empty(),
                committed: Seq::empty(),
                ignored: Seq::empty(),
                failed: Seq::empty(),
            }));
        }
        r
    }

    /// A host that starts from the snapshot's chain head, with the
    /// snapshot's peers reachable and the head the only block on record.
    pub fn new(startup_state: crate::types::StartupState) -> (r: Self)
        ensures
            r@.phase is Idle,
            r@.chain_head == Some(startup_state.chain_head@),
            r@.blocks == Map::<Seq<u8>, crate::types::BlockView>::empty().insert(
                startup_state.chain_head@.block_id,
                startup_state.chain_head@,
            ),
            r@.candidate is None,
            r@.summary_ready,
            r@.pending_summary == Seq::<u8>::empty(),
            r@.next_id == 0,
            r@.local_peer_id == startup_state.local_peer_info@,
            r@.peers == startup_state@.peers.to_set(),
            r@.settings == Map::<Seq<char>, Seq<char>>::empty(),
            r@.ledger_state == Map::<Seq<char>, Seq<u8>>::empty(),
            r@.sent == Seq::<SentMessageView>::empty(),
            r@.checked == Seq::<Seq<u8>>::empty(),
            r@.committed == Seq::<Seq<u8>>::empty(),
            r@.ignored == Seq::<Seq<u8>>::empty(),
            r@.failed == Seq::<Seq<u8>>::empty(),
    {
        let crate::types::StartupState { chain_head, peers, local_peer_info } = startup_state;
        let ghost head_view = chain_head@;
        let ghost peer_views = peers@.map_values(|p: crate::types::PeerInfo| p@);
        let head_copy = chain_head.clone();
        let mut blocks: Vec<Block> = Vec::new();
        blocks.push(head_copy);
        let mut peer_ids: Vec<PeerId> = Vec::new();
        let mut i: usize = 0;
        while i < peers.len()
            invariant
                i <= peers.len(),
                peers@.map_values(|p: crate::types::PeerInfo| p@) == peer_views,
                peer_ids@.map_values(|p: PeerId| p@) == peer_views.take(i as int),
            decreases peers.len() - i,
        {
            let ghost ids_before = peer_ids@;
            peer_ids.push(clone_bytes(&peers[i].peer_id));
            proof {
                assert(peer_ids@.map_values(|p: PeerId| p@) =~= ids_before.map_values(
                    |p: PeerId| p@,
                ).push(peer_views[i as int]));
                assert(peer_views.take(i + 1) =~= peer_views.take(i as int).push(
                    peer_views[i as int],
                ));
            }
            i = i + 1;
        }
        let r = ServiceModel {
            phase: CandidatePhase::Idle,
            chain_head: Some(chain_head),
            blocks,
            candidate: None,
            summary_ready: true,
            pending_summary: Vec::new(),
            next_id: 0,
            local_peer_id: local_peer_info.peer_id,
            peers: peer_ids,
            settings: Vec::new(),
            ledger_state: Vec::new(),
            sent: Vec::new(),
            checked: Vec::new(),
            committed: Vec::new(),
            ignored: Vec::new(),
            failed: Vec::new(),
        };
        proof {
            assert(peer_views.take(peers@.len() as int) =~= peer_views);
            assert(r@.peers =~= startup_state@.peers.to_set());
            let bm = r.blocks@.map_values(|b: Block| (b.block_id@, b@));
            assert(bm.len() == 1);
            assert(bm.last() == (head_view.block_id, head_view));
            assert(bm.drop_last() =~= Seq::empty());
            assert(assoc_map(bm.drop_last()) =~= Map::<Seq<u8>, crate::types::BlockView>::empty());
            assert(r@.blocks =~= Map::<Seq<u8>, crate::types::BlockView>::empty().insert(
                head_view.block_id,
                head_view,
            ));
            assert(r@.settings =~= Map::<Seq<char>, Seq<char>>::empty());
            assert(r@.ledger_state =~= Map::<Seq<char>, Seq<u8>>::empty());
            assert(r@.pending_summary =~= Seq::<u8>::empty());
            assert(r@.sent =~= Seq::<SentMessageView>::empty());
            assert(r@.checked =~= Seq::<Seq<u8>>::empty());
            assert(r@.committed =~= Seq::<Seq<u8>>::empty());
            assert(r@.ignored =~= Seq::<Seq<u8>>::empty());
            assert(r@.failed =~= Seq::<Seq<u8>>::empty());
        }
        r
    }

    /// Looks up a block by identifier; the newest record for an identifier
    /// wins, matching the shadowing in the view's map.
    fn find_block(&self, id: &BlockId) -> (r: Option<&Block>)
        ensures
            match r {
                Some(b) => self@.blocks.contains_key(id@) && b@ == self@.blocks[id@],
                None => !self@.blocks.contains_key(id@),
            },
    {
        let ghost ms = self.blocks@.map_values(|b: Block| (b.block_id@, b@));
        let mut i: usize = self.blocks.len();
        while i > 0
            invariant
                i <= self.blocks.len(),
                ms == self.blocks@.map_values(|b: Block| (b.block_id@, b@)),
                forall|l: int| i <= l < self.blocks.len() ==> (#[trigger] ms[l]).0 != id@,
            decreases i,
        {
            i = i - 1;
            let hit = self.blocks[i].block_id == *id;
            proof {
                lemma_bytes_eq(self.blocks@[i as int].block_id, *id);
            }
            if hit {
                proof {
                    lemma_assoc_map_found(ms, id@, i as int);
                }
                return Some(&self.blocks[i]);
            }
        }
        proof {
            lemma_assoc_map_absent(ms, id@);
        }
        None
    }

    /// Whether a block identifier is on record.
    fn contains_block(&self, id: &BlockId) -> (r: bool)
        ensures
            r == self@.blocks.contains_key(id@),
    {
        self.find_block(id).is_some()
    }

    /// Whether a peer is currently reachable.
    fn peer_known(&self, peer: &PeerId) -> (r: bool)
        ensures
            r == self@.peers.contains(peer@),
    {
        let ghost ps = self.peers@.map_values(|p: PeerId| p@);
        let mut i: usize = 0;
        while i < self.peers.len()
            invariant
                i <= self.peers.len(),
                ps == self.peers@.map_values(|p: PeerId| p@),
                forall|l: int| 0 <= l < i ==> (#[trigger] ps[l]) != peer@,
            decreases self.peers.len() - i,
        {
            let hit = self.peers[i] == *peer;
            proof {
                lemma_bytes_eq(self.peers@[i as int], *peer);
            }
            if hit {
                proof {
                    assert(ps[i as int] == peer@);
                    assert(ps.contains(peer@));
                }
                return true;
            }
            i = i + 1;
        }
        proof {
            assert(forall|l: int| 0 <= l < ps.len() ==> (#[trigger] ps[l]) != peer@);
            assert(!ps.contains(peer@));
        }
        false
    }

    /// Looks up a configuration entry by key; the newest entry wins.
    fn find_setting(&self, key: &String) -> (r: Option<&(String, String)>)
        ensures
            match r {
                Some(p) => self@.settings.contains_key(key@) && p.1@ == self@.settings[key@],
                None => !self@.settings.contains_key(key@),
            },
    {
        let ghost ms = self.settings@.map_values(|p: (String, String)| (p.0@, p.1@));
        let mut i: usize = self.settings.len();
        while i > 0
            invariant
                i <= self.settings.len(),
                ms == self.settings@.map_values(|p: (String, String)| (p.0@, p.1@)),
                forall|l: int| i <= l < self.settings.len() ==> (#[trigger] ms[l]).0 != key@,
            decreases i,
        {
            i = i - 1;
            if self.settings[i].0 == *key {
                proof {
                    lemma_assoc_map_found(ms, key@, i as int);
                }
                return Some(&self.settings[i]);
            }
        }
        proof {
            lemma_assoc_map_absent(ms, key@);
        }
        None
    }

    /// Looks up a ledger state entry by address; the newest entry wins.
    fn find_state_entry(&self, address: &String) -> (r: Option<&(String, Vec<u8>)>)
        ensures
            match r {
                Some(p) => self@.ledger_state.contains_key(address@) && p.1@
                    == self@.ledger_state[address@],
                None => !self@.ledger_state.contains_key(address@),
            },
    {
        let ghost ms = self.ledger_state@.map_values(|p: (String, Vec<u8>)| (p.0@, p.1@));
        let mut i: usize = self.ledger_state.len();
        while i > 0
            invariant
                i <= self.ledger_state.len(),
                ms == self.ledger_state@.map_values(|p: (String, Vec<u8>)| (p.0@, p.1@)),
                forall|l: int| i <= l < self.ledger_state.len() ==> (#[trigger] ms[l]).0
                    != address@,
            decreases i,
        {
            i = i - 1;
            if self.ledger_state[i].0 == *address {
                proof {
                    lemma_assoc_map_found(ms, address@, i as int);
                }
                return Some(&self.ledger_state[i]);
            }
        }
        proof {
            lemma_assoc_map_absent(ms, address@);
        }
        None
    }
}

impl Service for ServiceModel {
    fn send_to(&mut self, peer: &PeerId, message_type: &str, payload: Vec<u8>) -> (r: Result<
        (),
        ConsensusError,
    >) {
        if !self.peer_known(peer) {
            return Err(ConsensusError::UnknownPeer("peer not known to the host".to_owned()));
        }
        let ghost mv = SentMessageView {
            receiver: Some(peer@),
            message_type: message_type@,
            payload: payload@,
        };
        let m = SentMessage {
            receiver: Some(clone_bytes(peer)),
            message_type: message_type.to_owned(),
            payload,
        };
        self.sent.push(m);
        proof {
            assert(self.sent@.map_values(|m: SentMessage| m@) =~= old(self).sent@.map_values(
                |m: SentMessage| m@,
            ).push(mv));
            assert(self@ =~= ServiceView { sent: old(self)@.sent.push(mv), ..old(self)@ });
        }
        Ok(())
    }

    fn broadcast(&mut self, message_type: &str, payload: Vec<u8>) -> (r: Result<
        (),
        ConsensusError,
    >) {
        let ghost mv = SentMessageView {
            receiver: None,
            message_type: message_type@,
            payload: payload@,
        };
        let m = SentMessage { receiver: None, message_type: message_type.to_owned(), payload };
        self.sent.push(m);
        proof {
            assert(self.sent@.map_values(|m: SentMessage| m@) =~= old(self).sent@.map_values(
                |m: SentMessage| m@,
            ).push(mv));
            assert(self@ =~= ServiceView { sent: old(self)@.sent.push(mv), ..old(self)@ });
        }
        Ok(())
    }

    fn initialize_block(&mut self, previous_id: Option<BlockId>) -> (r: Result<
        (),
        ConsensusError,
    >) {
        if self.phase != CandidatePhase::Idle {
            return Err(
                ConsensusError::InvalidState("a block candidate is already in progress".to_owned()),
            );
        }
        let parent = match &previous_id {
            Some(pid) => {
                match self.find_block(pid) {
                    Some(b) => b.clone(),
                    None => {
                        return Err(
                            ConsensusError::UnknownBlock("parent block not on record".to_owned()),
                        );
                    },
                }
            },
            None => {
                match &self.chain_head {
                    Some(h) => h.clone(),
                    None => {
                        return Err(ConsensusError::NoChainHead);
                    },
                }
            },
        };
        let ghost pv = parent@;
        self.candidate = Some(parent);
        self.phase = CandidatePhase::Building;
        proof {
            assert(self@ =~= ServiceView {
                phase: CandidatePhase::Building,
                candidate: Some(pv),
                ..old(self)@
            });
        }
        Ok(())
    }

    fn summarize_block(&mut self) -> (r: Result<Vec<u8>, ConsensusError>) {
        if self.phase != CandidatePhase::Building {
            return Err(
                ConsensusError::InvalidState("no block candidate is being built".to_owned()),
            );
        }
        if !self.summary_ready {
            return Err(ConsensusError::BlockNotReady);
        }
        self.phase = CandidatePhase::Summarized;
        proof {
            assert(self@ =~= ServiceView { phase: CandidatePhase::Summarized, ..old(self)@ });
        }
        Ok(clone_bytes(&self.pending_summary))
    }

    fn finalize_block(&mut self, data: Vec<u8>) -> (r: Result<BlockId, ConsensusError>) {
        if self.phase == CandidatePhase::Idle {
            return Err(ConsensusError::InvalidState("no block candidate exists".to_owned()));
        }
        if self.phase == CandidatePhase::Building {
            return Err(ConsensusError::BlockNotReady);
        }
        let parent = match &self.candidate {
            Some(p) => p.clone(),
            None => {
                proof {
                    assert(false);
                }
                return Err(ConsensusError::InvalidState("no block candidate exists".to_owned()));
            },
        };
        if parent.block_num == u64::MAX || self.next_id == u64::MAX {
            return Err(ConsensusError::InvalidState("height or identifier space exhausted".to_owned()));
        }
        let id = encode_block_id(self.next_id);
        let b = Block {
            block_id: clone_bytes(&id),
            previous_id: clone_bytes(&parent.block_id),
            signer_id: clone_bytes(&self.local_peer_id),
            block_num: parent.block_num + 1,
            payload: data,
            summary: clone_bytes(&self.pending_summary),
        };
        let ghost bv = b@;
        let ghost bm_old = old(self).blocks@.map_values(|x: Block| (x.block_id@, x@));
        self.blocks.push(b);
        self.next_id = self.next_id + 1;
        self.phase = CandidatePhase::Idle;
        self.candidate = None;
        proof {
            assert(bv =~= finalized_block(old(self)@, parent@, data@));
            assert(self.blocks@.map_values(|x: Block| (x.block_id@, x@)) =~= bm_old.push(
                (bv.block_id, bv),
            ));
            lemma_assoc_map_push(bm_old, bv.block_id, bv);
            assert(self@ =~= ServiceView {
                phase: CandidatePhase::Idle,
                candidate: None,
                blocks: old(self)@.blocks.insert(bv.block_id, bv),
                next_id: (old(self)@.next_id + 1) as u64,
                ..old(self)@
            });
        }
        Ok(id)
    }

    fn cancel_block(&mut self) -> (r: Result<(), ConsensusError>) {
        if self.phase == CandidatePhase::Idle {
            return Err(ConsensusError::InvalidState("no block candidate exists".to_owned()));
        }
        self.phase = CandidatePhase::Idle;
        self.candidate = None;
        proof {
            assert(self@ =~= ServiceView {
                phase: CandidatePhase::Idle,
                candidate: None,
                ..old(self)@
            });
        }
        Ok(())
    }

    fn check_blocks(&mut self, priority: Vec<BlockId>) -> (r: Result<(), ConsensusError>) {
        let ghost pv = priority@.map_values(|id: BlockId| id@);
        let mut i: usize = 0;
        while i < priority.len()
            invariant
                self@.wf(),
                i <= priority.len(),
                pv == priority@.map_values(|id: BlockId| id@),
                forall|j: int| 0 <= j < i ==> self@.blocks.contains_key(#[trigger] pv[j]),
            decreases priority.len() - i,
        {
            if !self.contains_block(&priority[i]) {
                proof {
                    assert(!self@.blocks.contains_key(pv[i as int]));
                }
                return Err(
                    ConsensusError::UnknownBlock("block to check not on record".to_owned()),
                );
            }
            i = i + 1;
        }
        let mut p = priority;
        self.checked.append(&mut p);
        proof {
            assert(self.checked@.map_values(|id: BlockId| id@) =~= old(self).checked@.map_values(
                |id: BlockId| id@,
            ) + pv);
            assert(self@ =~= ServiceView { checked: old(self)@.checked + pv, ..old(self)@ });
        }
        Ok(())
    }

    fn commit_block(&mut self, block_id: BlockId) -> (r: Result<(), ConsensusError>) {
        let new_head = match self.find_block(&block_id) {
            Some(b) => b.clone(),
            None => {
                return Err(
                    ConsensusError::UnknownBlock("block to commit not on record".to_owned()),
                );
            },
        };
        let ghost hv = new_head@;
        self.chain_head = Some(new_head);
        self.committed.push(block_id);
        proof {
            assert(self.committed@.map_values(|id: BlockId| id@)
                =~= old(self).committed@.map_values(|id: BlockId| id@).push(block_id@));
            assert(self@ =~= ServiceView {
                chain_head: Some(hv),
                committed: old(self)@.committed.push(block_id@),
                ..old(self)@
            });
        }
        Ok(())
    }

    fn ignore_block(&mut self, block_id: BlockId) -> (r: Result<(), ConsensusError>) {
        if !self.contains_block(&block_id) {
            return Err(ConsensusError::UnknownBlock("block to ignore not on record".to_owned()));
        }
        self.ignored.push(block_id);
        proof {
            assert(self.ignored@.map_values(|id: BlockId| id@) =~= old(self).ignored@.map_values(
                |id: BlockId| id@,
            ).push(block_id@));
            assert(self@ =~= ServiceView {
                ignored: old(self)@.ignored.push(block_id@),
                ..old(self)@
            });
        }
        Ok(())
    }

    fn fail_block(&mut self, block_id: BlockId) -> (r: Result<(), ConsensusError>) {
        if !self.contains_block(&block_id) {
            return Err(ConsensusError::UnknownBlock("block to fail not on record".to_owned()));
        }
        self.failed.push(block_id);
        proof {
            assert(self.failed@.map_values(|id: BlockId| id@) =~= old(self).failed@.map_values(
                |id: BlockId| id@,
            ).push(block_id@));
            assert(self@ =~= ServiceView {
                failed: old(self)@.failed.push(block_id@),
                ..old(self)@
            });
        }
        Ok(())
    }

    fn get_blocks(&mut self, block_ids: Vec<BlockId>) -> (r: Result<Vec<Block>, ConsensusError>) {
        let ghost ids = block_ids@.map_values(|id: BlockId| id@);
        let mut out: Vec<Block> = Vec::new();
        let mut i: usize = 0;
        while i < block_ids.len()
            invariant
                self@.wf(),
                i <= block_ids.len(),
                ids == block_ids@.map_values(|id: BlockId| id@),
                forall|j: int| 0 <= j < i ==> self@.blocks.contains_key(#[trigger] ids[j]),
                out@.map_values(|b: Block| b@) == Seq::new(
                    i as nat,
                    |j: int| self@.blocks[ids[j]],
                ),
            decreases block_ids.len() - i,
        {
            let ghost out_before = out@;
            match self.find_block(&block_ids[i]) {
                Some(b) => {
                    out.push(b.clone());
                    proof {
                        assert(out@.map_values(|b: Block| b@) =~= out_before.map_values(
                            |b: Block| b@,
                        ).push(self@.blocks[ids[i as int]]));
                        assert(Seq::new((i + 1) as nat, |j: int| self@.blocks[ids[j]]) =~= Seq::new(
                            i as nat,
                            |j: int| self@.blocks[ids[j]],
                        ).push(self@.blocks[ids[i as int]]));
                    }
                },
                None => {
                    proof {
                        assert(!self@.blocks.contains_key(ids[i as int]));
                    }
                    return Err(
                        ConsensusError::UnknownBlock("requested block not on record".to_owned()),
                    );
                },
            }
            i = i + 1;
        }
        proof {
            assert(out@.map_values(|b: Block| b@) =~= crate::service::resolved_blocks(self@, ids));
        }
        Ok(out)
    }

    fn get_chain_head(&mut self) -> (r: Result<Block, ConsensusError>) {
        match &self.chain_head {
            Some(h) => Ok(h.clone()),
            None => Err(ConsensusError::NoChainHead),
        }
    }

    fn get_settings(&mut self, block_id: BlockId, keys: Vec<String>) -> (r: Result<
        Vec<(String, String)>,
        ConsensusError,
    >) {
        if !self.contains_block(&block_id) {
            return Err(ConsensusError::UnknownBlock("settings block not on record".to_owned()));
        }
        let ghost kv = keys@.map_values(|k: String| k@);
        let mut out: Vec<(String, String)> = Vec::new();
        let mut i: usize = 0;
        while i < keys.len()
            invariant
                i <= keys.len(),
                kv == keys@.map_values(|k: String| k@),
                out@.map_values(|p: (String, String)| (p.0@, p.1@)) == selected_entries(
                    self@.settings,
                    kv.take(i as int),
                ),
            decreases keys.len() - i,
        {
            let ghost out_before = out@;
            proof {
                assert(kv.take(i + 1).drop_last() =~= kv.take(i as int));
                assert(kv.take(i + 1).last() == kv[i as int]);
            }
            match self.find_setting(&keys[i]) {
                Some(p) => {
                    let e = (keys[i].clone(), p.1.clone());
                    out.push(e);
                    proof {
                        assert(out@.map_values(|p: (String, String)| (p.0@, p.1@)) =~= out_before
                            .map_values(|p: (String, String)| (p.0@, p.1@)).push(
                            (kv[i as int], self@.settings[kv[i as int]]),
                        ));
                        assert(selected_entries(self@.settings, kv.take(i + 1))
                            =~= selected_entries(self@.settings, kv.take(i as int)).push(
                            (kv[i as int], self@.settings[kv[i as int]]),
                        ));
                    }
                },
                None => {
                    proof {
                        assert(selected_entries(self@.settings, kv.take(i + 1))
                            =~= selected_entries(self@.settings, kv.take(i as int)));
                    }
                },
            }
            i = i + 1;
        }
        proof {
            assert(kv.take(keys@.len() as int) =~= kv);
        }
        Ok(out)
    }

    fn get_state(&mut self, block_id: BlockId, addresses: Vec<String>) -> (r: Result<
        Vec<(String, Vec<u8>)>,
        ConsensusError,
    >) {
        if !self.contains_block(&block_id) {
            return Err(ConsensusError::UnknownBlock("state block not on record".to_owned()));
        }
        let ghost av = addresses@.map_values(|a: String| a@);
        let mut out: Vec<(String, Vec<u8>)> = Vec::new();
        let mut i: usize = 0;
        while i < addresses.len()
            invariant
                i <= addresses.len(),
                av == addresses@.map_values(|a: String| a@),
                out@.map_values(|p: (String, Vec<u8>)| (p.0@, p.1@)) == selected_entries(
                    self@.ledger_state,
                    av.take(i as int),
                ),
            decreases addresses.len() - i,
        {
            let ghost out_before = out@;
            proof {
                assert(av.take(i + 1).drop_last() =~= av.take(i as int));
                assert(av.take(i + 1).last() == av[i as int]);
            }
            match self.find_state_entry(&addresses[i]) {
                Some(p) => {
                    let e = (addresses[i].clone(), clone_bytes(&p.1));
                    out.push(e);
                    proof {
                        assert(out@.map_values(|p: (String, Vec<u8>)| (p.0@, p.1@)) =~= out_before
                            .map_values(|p: (String, Vec<u8>)| (p.0@, p.1@)).push(
                            (av[i as int], self@.ledger_state[av[i as int]]),
                        ));
                        assert(selected_entries(self@.ledger_state, av.take(i + 1))
                            =~= selected_entries(self@.ledger_state, av.take(i as int)).push(
                            (av[i as int], self@.ledger_state[av[i as int]]),
                        ));
                    }
                },
                None => {
                    proof {
                        assert(selected_entries(self@.ledger_state, av.take(i + 1))
                            =~= selected_entries(self@.ledger_state, av.take(i as int)));
                    }
                },
            }
            i = i + 1;
        }
        proof {
            assert(av.take(addresses@.len() as int) =~= av);
        }
        Ok(out)
    }
}

} // verus!
