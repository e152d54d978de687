//! A base peer structure and configuration hooks shared by consensus
//! algorithm implementations.

use vstd::prelude::*;

verus! {

/// A base structure for consensus peers, usable across algorithms: the
/// node's stable identifier (which, unlike the public key, never changes),
/// its current public key, and its network address.
#[derive(Clone, Debug, PartialEq, Eq)]
pub struct BaseConsensusPeer<P, PK> {
    pub id: P,
    pub pub_key: PK,
    pub net_addr: String,
}

impl<P: Clone, PK: Clone + Default> BaseConsensusPeer<P, PK> {
    /// A peer with the given identifier and network address; the public key
    /// starts at its default until one is set.
    pub fn new(id: P, net_addr: String) -> (r: Self)
        ensures
            r.id == id,
            r.net_addr@ == net_addr@,
            call_ensures(<PK as Default>::default, (), r.pub_key),
    {
        BaseConsensusPeer { id, net_addr, pub_key: PK::default() }
    }

    /// The identifier of the peer.
    pub fn get_id(&self) -> (r: P)
        ensures
            vstd::pervasive::cloned(self.id, r),
    {
        self.id.clone()
    }

    /// The base network address of the peer.
    pub fn get_base_addr(&self) -> (r: String)
        ensures
            r@ == self.net_addr@,
    {
        self.net_addr.clone()
    }

    /// The nth network address of the peer; this base structure carries a
    /// single address, so every index resolves to it.
    pub fn get_net_addr(&self, _n: usize) -> (r: String)
        ensures
            r@ == self.net_addr@,
    {
        self.net_addr.clone()
    }

    /// Replaces the nth network address of the peer.
    pub fn set_net_addr(&mut self, _n: usize, addr: String)
        ensures
            final(self).net_addr == addr,
            final(self).id == old(self).id,
            final(self).pub_key == old(self).pub_key,
    {
        self.net_addr = addr;
    }

    /// The current public key of the peer.
    pub fn get_public_key(&self) -> (r: PK)
        ensures
            vstd::pervasive::cloned(self.pub_key, r),
    {
        self.pub_key.clone()
    }

    /// Replaces the public key of the peer.
    pub fn set_public_key(&mut self, key: PK)
        ensures
            final(self).pub_key == key,
            final(self).id == old(self).id,
            final(self).net_addr == old(self).net_addr,
    {
        self.pub_key = key;
    }
}

/// The kinds of administrative transaction that can occur in the network:
/// adding a new peer to the participants, or removing one (signed by the
/// leaving peer itself).
#[derive(Clone, Debug, Eq, PartialEq, Structural)]
pub enum TransactionType {
    PeerAdd,
    PeerRemove,
}

/// How a consensus algorithm is configured: a single hook that builds the
/// algorithm's configuration value.
pub trait ConsensusConfiguration<Data>: Sized {
    /// Creates a new consensus configuration.
    fn new() -> Self;
}

} // verus!
