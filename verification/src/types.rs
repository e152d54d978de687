//! The immutable value types exchanged across the engine/host boundary,
//! together with their mathematical views.

use vstd::prelude::*;

verus! {

use vstd::std_specs::cmp::PartialEqSpec;

/// An opaque byte identifier for a block, unique within a chain.
pub type BlockId = Vec<u8>;

/// An opaque byte identifier for a network peer.
pub type PeerId = Vec<u8>;

/// Static metadata of an engine implementation, fixed for the process
/// lifetime.
pub struct Identity {
    pub name: String,
    pub version: String,
}

/// Mathematical view of an `Identity`.
#[verifier::ext_equal]
pub struct IdentityView {
    pub name: Seq<char>,
    pub version: Seq<char>,
}

impl View for Identity {
    type V = IdentityView;

    open spec fn view(&self) -> IdentityView {
        IdentityView { name: self.name@, version: self.version@ }
    }
}

/// A network peer known to the host, identified by its `peer_id`.
#[derive(Debug, Hash)]
pub struct PeerInfo {
    pub peer_id: PeerId,
}

impl View for PeerInfo {
    type V = Seq<u8>;

    open spec fn view(&self) -> Seq<u8> {
        self.peer_id@
    }
}

impl Default for PeerInfo {
    fn default() -> (res: Self)
        ensures
            res@ == Seq::<u8>::empty(),
    {
        let res = PeerInfo { peer_id: Vec::new() };
        proof {
            assert(res@ =~= Seq::<u8>::empty());
        }
        res
    }
}

impl PartialEq for PeerInfo {
    fn eq(&self, other: &Self) -> (r: bool) {
        let r = self.peer_id == other.peer_id;
        proof {
            if self.peer_id@ =~= other.peer_id@ {
                assert(self.peer_id@ == other.peer_id@);
            }
        }
        r
    }
}

impl vstd::std_specs::cmp::PartialEqSpecImpl for PeerInfo {
    open spec fn obeys_eq_spec() -> bool {
        true
    }

    open spec fn eq_spec(&self, other: &Self) -> bool {
        self@ == other@
    }
}

impl Eq for PeerInfo {}

/// Mathematical view of a `Block`.
#[verifier::ext_equal]
pub struct BlockView {
    pub block_id: Seq<u8>,
    pub previous_id: Seq<u8>,
    pub signer_id: Seq<u8>,
    pub block_num: u64,
    pub payload: Seq<u8>,
    pub summary: Seq<u8>,
}

impl BlockView {
    /// The view of a block with all fields empty and height zero.
    pub open spec fn empty() -> BlockView {
        BlockView {
            block_id: Seq::empty(),
            previous_id: Seq::empty(),
            signer_id: Seq::empty(),
            block_num: 0,
            payload: Seq::empty(),
            summary: Seq::empty(),
        }
    }

    /// Whether `self` sits directly on top of `parent`: its parent pointer
    /// names `parent` and its height is exactly one greater.
    pub open spec fn extends(self, parent: BlockView) -> bool {
        &&& self.previous_id == parent.block_id
        &&& self.block_num == parent.block_num + 1
    }

    /// A genesis block carries the sentinel empty parent identifier and
    /// height zero.
    pub open spec fn is_genesis(self) -> bool {
        self.previous_id.len() == 0 && self.block_num == 0
    }
}

/// An immutable block as exchanged across the boundary.  `payload` carries
/// engine-specific consensus metadata; `summary` is a content digest computed
/// by the host over the block's ledger contents.
#[derive(Debug, Hash)]
pub struct Block {
    pub block_id: BlockId,
    pub previous_id: BlockId,
    pub signer_id: PeerId,
    pub block_num: u64,
    pub payload: Vec<u8>,
    pub summary: Vec<u8>,
}

impl View for Block {
    type V = BlockView;

    open spec fn view(&self) -> BlockView {
        BlockView {
            block_id: self.block_id@,
            previous_id: self.previous_id@,
            signer_id: self.signer_id@,
            block_num: self.block_num,
            payload: self.payload@,
            summary: self.summary@,
        }
    }
}

impl Default for Block {
    fn default() -> (res: Self)
        ensures
            res@ == BlockView::empty(),
            res@.is_genesis(),
    {
        let res = Block {
            block_id: Vec::new(),
            previous_id: Vec::new(),
            signer_id: Vec::new(),
            block_num: 0,
            payload: Vec::new(),
            summary: Vec::new(),
        };
        proof {
            assert(res@.block_id =~= Seq::<u8>::empty());
            assert(res@.previous_id =~= Seq::<u8>::empty());
            assert(res@.signer_id =~= Seq::<u8>::empty());
            assert(res@.payload =~= Seq::<u8>::empty());
            assert(res@.summary =~= Seq::<u8>::empty());
        }
        res
    }
}

impl Clone for Block {
    fn clone(&self) -> (res: Self)
        ensures
            res@ == self@,
    {
        let res = Block {
            block_id: clone_bytes(&self.block_id),
            previous_id: clone_bytes(&self.previous_id),
            signer_id: clone_bytes(&self.signer_id),
            block_num: self.block_num,
            payload: clone_bytes(&self.payload),
            summary: clone_bytes(&self.summary),
        };
        res
    }
}

impl PartialEq for Block {
    fn eq(&self, other: &Self) -> (r: bool) {
        let r = self.block_id == other.block_id && self.previous_id == other.previous_id
            && self.signer_id == other.signer_id && self.block_num == other.block_num
            && self.payload == other.payload && self.summary == other.summary;
        proof {
            lemma_bytes_eq(self.block_id, other.block_id);
            lemma_bytes_eq(self.previous_id, other.previous_id);
            lemma_bytes_eq(self.signer_id, other.signer_id);
            lemma_bytes_eq(self.payload, other.payload);
            lemma_bytes_eq(self.summary, other.summary);
        }
        r
    }
}

impl vstd::std_specs::cmp::PartialEqSpecImpl for Block {
    open spec fn obeys_eq_spec() -> bool {
        true
    }

    open spec fn eq_spec(&self, other: &Self) -> bool {
        self@ == other@
    }
}

impl Eq for Block {}

/// Copies a byte vector, keeping its contents exactly.
pub fn clone_bytes(v: &Vec<u8>) -> (res: Vec<u8>)
    ensures
        res@ == v@,
{
    let res = v.clone();
    proof {
        assert(res@ =~= v@);
    }
    res
}

/// The element-wise equality that `==` on byte vectors decides coincides
/// with equality of their views.
pub proof fn lemma_bytes_eq(a: Vec<u8>, b: Vec<u8>)
    ensures
        a.eq_spec(&b) == (a@ == b@),
{
    if a.eq_spec(&b) {
        assert(a@ =~= b@);
    }
    if a@ == b@ {
        assert(forall|i: int| 0 <= i < a.len() ==> a[i].eq_spec(&b[i]));
    }
}

/// Mathematical view of a `PeerMessageHeader`.
#[verifier::ext_equal]
pub struct PeerMessageHeaderView {
    pub signer_id: Seq<u8>,
    pub content_sha512: Seq<u8>,
    pub message_type: Seq<char>,
    pub name: Seq<char>,
    pub version: Seq<char>,
}

/// The parsed header of a peer message.  `content_sha512` is the digest of
/// the message content, checked upstream by the transport; the engine assumes
/// it already matches.
#[derive(Debug)]
pub struct PeerMessageHeader {
    pub signer_id: Vec<u8>,
    pub content_sha512: Vec<u8>,
    pub message_type: String,
    pub name: String,
    pub version: String,
}

impl View for PeerMessageHeader {
    type V = PeerMessageHeaderView;

    open spec fn view(&self) -> PeerMessageHeaderView {
        PeerMessageHeaderView {
            signer_id: self.signer_id@,
            content_sha512: self.content_sha512@,
            message_type: self.message_type@,
            name: self.name@,
            version: self.version@,
        }
    }
}

impl Default for PeerMessageHeader {
    fn default() -> (res: Self)
        ensures
            res@.signer_id.len() == 0,
            res@.content_sha512.len() == 0,
            res@.message_type.len() == 0,
            res@.name.len() == 0,
            res@.version.len() == 0,
    {
        PeerMessageHeader {
            signer_id: Vec::new(),
            content_sha512: Vec::new(),
            message_type: String::new(),
            name: String::new(),
            version: String::new(),
        }
    }
}

impl Clone for PeerMessageHeader {
    fn clone(&self) -> (res: Self)
        ensures
            res@ == self@,
    {
        PeerMessageHeader {
            signer_id: clone_bytes(&self.signer_id),
            content_sha512: clone_bytes(&self.content_sha512),
            message_type: self.message_type.clone(),
            name: self.name.clone(),
            version: self.version.clone(),
        }
    }
}

/// Mathematical view of a `PeerMessage`.
#[verifier::ext_equal]
pub struct PeerMessageView {
    pub header: PeerMessageHeaderView,
    pub header_bytes: Seq<u8>,
    pub header_signature: Seq<u8>,
    pub content: Seq<u8>,
}

/// An authenticated message from a remote peer: the parsed header, the raw
/// bytes it was parsed from (signature verification operates over exactly
/// those bytes), the header signature, and the opaque content.  The engine
/// treats a delivered message as already authenticated.
#[derive(Debug)]
pub struct PeerMessage {
    pub header: PeerMessageHeader,
    pub header_bytes: Vec<u8>,
    pub header_signature: Vec<u8>,
    pub content: Vec<u8>,
}

impl View for PeerMessage {
    type V = PeerMessageView;

    open spec fn view(&self) -> PeerMessageView {
        PeerMessageView {
            header: self.header@,
            header_bytes: self.header_bytes@,
            header_signature: self.header_signature@,
            content: self.content@,
        }
    }
}

impl Default for PeerMessage {
    fn default() -> (res: Self)
        ensures
            res@.header.message_type.len() == 0,
            res@.header_bytes.len() == 0,
            res@.header_signature.len() == 0,
            res@.content.len() == 0,
    {
        PeerMessage {
            header: PeerMessageHeader::default(),
            header_bytes: Vec::new(),
            header_signature: Vec::new(),
            content: Vec::new(),
        }
    }
}

impl Clone for PeerMessage {
    fn clone(&self) -> (res: Self)
        ensures
            res@ == self@,
    {
        PeerMessage {
            header: self.header.clone(),
            header_bytes: clone_bytes(&self.header_bytes),
            header_signature: clone_bytes(&self.header_signature),
            content: clone_bytes(&self.content),
        }
    }
}

/// Mathematical view of a `StartupState`.
#[verifier::ext_equal]
pub struct StartupStateView {
    pub chain_head: BlockView,
    pub peers: Seq<Seq<u8>>,
    pub local_peer_info: Seq<u8>,
}

/// The one-time snapshot handed to an engine at start: the current best
/// committed block, the known peer set, and this node's own identity.  After
/// start the engine tracks all further changes through updates.
#[derive(Debug)]
pub struct StartupState {
    pub chain_head: Block,
    pub peers: Vec<PeerInfo>,
    pub local_peer_info: PeerInfo,
}

impl View for StartupState {
    type V = StartupStateView;

    open spec fn view(&self) -> StartupStateView {
        StartupStateView {
            chain_head: self.chain_head@,
            peers: self.peers@.map_values(|p: PeerInfo| p@),
            local_peer_info: self.local_peer_info@,
        }
    }
}

impl Default for StartupState {
    fn default() -> (res: Self)
        ensures
            res@.chain_head == BlockView::empty(),
            res@.peers.len() == 0,
            res@.local_peer_info.len() == 0,
    {
        let res = StartupState {
            chain_head: Block::default(),
            peers: Vec::new(),
            local_peer_info: PeerInfo::default(),
        };
        proof {
            assert(res@.peers =~= Seq::<Seq<u8>>::empty());
        }
        res
    }
}

/// Mathematical view of an `Update`.
#[verifier::ext_equal]
pub enum UpdateView {
    PeerConnected(Seq<u8>),
    PeerDisconnected(Seq<u8>),
    PeerMessage(PeerMessageView, Seq<u8>),
    BlockNew(BlockView),
    BlockValid(Seq<u8>),
    BlockInvalid(Seq<u8>),
    BlockCommit(Seq<u8>),
    Shutdown,
}

/// A network or ledger notification delivered to the engine through the
/// update channel, in the order the host enqueued it.  `Shutdown` is
/// guaranteed to be the last event ever delivered.
#[derive(Debug)]
pub enum Update {
    PeerConnected(PeerInfo),
    PeerDisconnected(PeerId),
    PeerMessage(PeerMessage, PeerId),
    BlockNew(Block),
    BlockValid(BlockId),
    BlockInvalid(BlockId),
    BlockCommit(BlockId),
    Shutdown,
}

impl View for Update {
    type V = UpdateView;

    open spec fn view(&self) -> UpdateView {
        match self {
            Update::PeerConnected(p) => UpdateView::PeerConnected(p@),
            Update::PeerDisconnected(id) => UpdateView::PeerDisconnected(id@),
            Update::PeerMessage(m, id) => UpdateView::PeerMessage(m@, id@),
            Update::BlockNew(b) => UpdateView::BlockNew(b@),
            Update::BlockValid(id) => UpdateView::BlockValid(id@),
            Update::BlockInvalid(id) => UpdateView::BlockInvalid(id@),
            Update::BlockCommit(id) => UpdateView::BlockCommit(id@),
            Update::Shutdown => UpdateView::Shutdown,
        }
    }
}

/// The lowercase hex digit for a nibble.
pub open spec fn hex_digit(n: u8) -> char
    recommends
        n < 16,
{
    seq!['0', '1', '2', '3', '4', '5', '6', '7', '8', '9', 'a', 'b', 'c', 'd', 'e', 'f'][n as int]
}

/// The lowercase hex rendering of a byte sequence: two digits per byte, high
/// nibble first.
pub open spec fn hex_of(s: Seq<u8>) -> Seq<char> {
    Seq::new(
        2 * s.len(),
        |i: int| if i % 2 == 0 {
            hex_digit(s[i / 2] / 16)
        } else {
            hex_digit(s[i / 2] % 16)
        },
    )
}

/// Relies on hex::encode: every input byte becomes two hex digits from the
/// lowercase alphabet "0123456789abcdef", high nibble first, in input order.
#[verifier::external_body]
fn to_hex(b: &Vec<u8>) -> (r: String)
    ensures
        r@ == hex_of(b@),
{
    hex::encode(b)
}

impl Block {
    /// The consensus payload rendered as lowercase hex.
    pub fn payload_hex(&self) -> (r: String)
        ensures
            r@ == hex_of(self@.payload),
    {
        to_hex(&self.payload)
    }

    /// The content summary rendered as lowercase hex.
    pub fn summary_hex(&self) -> (r: String)
        ensures
            r@ == hex_of(self@.summary),
    {
        to_hex(&self.summary)
    }
}

} // verus!
