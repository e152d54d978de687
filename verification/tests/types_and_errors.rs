//! The data model's value types, their rendering, and the error taxonomy.

use libconsensus::error::{ConsensusError, ReceiveError, SendError};
use libconsensus::peer::{BaseConsensusPeer, ConsensusConfiguration, TransactionType};
use libconsensus::types::{Block, Identity, PeerInfo, PeerMessage, PeerMessageHeader};

#[test]
fn block_hex_renders_payload_and_summary() {
    let block = Block {
        block_id: vec![1],
        previous_id: vec![],
        signer_id: vec![],
        block_num: 1,
        payload: vec![0x00, 0x0A, 0xFF, 0x10],
        summary: vec![0xDE, 0xAD],
    };
    assert_eq!(block.payload_hex(), "000aff10");
    assert_eq!(block.summary_hex(), "dead");
    let empty = Block::default();
    assert_eq!(empty.payload_hex(), "");
}

#[test]
fn block_equality_is_structural() {
    let a = Block {
        block_id: vec![1],
        previous_id: vec![0],
        signer_id: vec![2],
        block_num: 1,
        payload: b"p".to_vec(),
        summary: b"s".to_vec(),
    };
    let b = a.clone();
    assert_eq!(a, b);
    let mut c = a.clone();
    c.payload = b"q".to_vec();
    assert_ne!(a, c);
    let d = Block::default();
    assert_eq!(d.block_num, 0);
    assert!(d.block_id.is_empty());
    assert!(d.previous_id.is_empty());
}

#[test]
fn peer_info_equality_is_by_identifier() {
    let a = PeerInfo { peer_id: vec![1, 2] };
    let b = PeerInfo { peer_id: vec![1, 2] };
    let c = PeerInfo { peer_id: vec![3] };
    assert_eq!(a, b);
    assert_ne!(a, c);
    assert!(PeerInfo::default().peer_id.is_empty());
}

#[test]
fn peer_message_defaults_and_clones() {
    let empty = PeerMessage::default();
    assert!(empty.header.message_type.is_empty());
    assert!(empty.content.is_empty());

    let msg = PeerMessage {
        header: PeerMessageHeader {
            signer_id: vec![1],
            content_sha512: vec![2],
            message_type: "vote".to_string(),
            name: "ref".to_string(),
            version: "1.0".to_string(),
        },
        header_bytes: vec![3],
        header_signature: vec![4],
        content: vec![5],
    };
    let copy = msg.clone();
    assert_eq!(copy.header.message_type, "vote");
    assert_eq!(copy.header_bytes, vec![3]);
    assert_eq!(copy.header_signature, vec![4]);
    assert_eq!(copy.content, vec![5]);
}

#[test]
fn identity_carries_name_and_version() {
    let identity = Identity {
        name: "ref".to_string(),
        version: "1.0".to_string(),
    };
    assert_eq!(identity.name, "ref");
    assert_eq!(identity.version, "1.0");
}

#[test]
fn consensus_error_messages() {
    assert_eq!(
        ConsensusError::EncodingError("bad bytes".to_string()).message(),
        "bad bytes"
    );
    assert_eq!(
        ConsensusError::SendError("send failed".to_string()).message(),
        "send failed"
    );
    assert_eq!(
        ConsensusError::ReceiveError("recv failed".to_string()).message(),
        "recv failed"
    );
    assert_eq!(
        ConsensusError::InvalidState("busy".to_string()).message(),
        "busy"
    );
    assert_eq!(
        ConsensusError::UnknownBlock("no block".to_string()).message(),
        "no block"
    );
    assert_eq!(
        ConsensusError::UnknownPeer("no peer".to_string()).message(),
        "no peer"
    );
    assert_eq!(ConsensusError::NoChainHead.message(), "No chain head");
    assert_eq!(
        ConsensusError::BlockNotReady.message(),
        "Block not ready to finalize"
    );
}

#[test]
fn consensus_error_display_wraps_detail_in_parentheses() {
    assert_eq!(ConsensusError::NoChainHead.display_string(), "(No chain head)");
    assert_eq!(
        ConsensusError::BlockNotReady.display_string(),
        "(Block not ready to finalize)"
    );
    assert_eq!(
        ConsensusError::InvalidState("busy".to_string()).display_string(),
        "(busy)"
    );
    assert_eq!(
        ConsensusError::EncodingError("bad bytes".to_string()).display_string(),
        "(bad bytes)"
    );
}

#[test]
fn retryable_errors_are_exactly_the_transient_ones() {
    assert!(ConsensusError::BlockNotReady.is_retryable());
    assert!(ConsensusError::SendError(String::new()).is_retryable());
    assert!(ConsensusError::ReceiveError(String::new()).is_retryable());
    assert!(!ConsensusError::NoChainHead.is_retryable());
    assert!(!ConsensusError::InvalidState(String::new()).is_retryable());
    assert!(!ConsensusError::UnknownBlock(String::new()).is_retryable());
    assert!(!ConsensusError::UnknownPeer(String::new()).is_retryable());
    assert!(!ConsensusError::EncodingError(String::new()).is_retryable());
}

#[test]
fn receive_and_send_error_shapes() {
    assert_eq!(ReceiveError::TimeoutError.message(), "TimeoutError");
    assert_eq!(
        ReceiveError::DisconnectedError.message(),
        "DisconnectedError"
    );
    let (_sender, receiver) = std::sync::mpsc::channel::<u8>();
    drop(_sender);
    let channel_err = receiver.recv().unwrap_err();
    assert_eq!(
        ReceiveError::ChannelError(channel_err).message(),
        "receiving on an empty and disconnected channel"
    );
    assert!(matches!(SendError::UnknownError, SendError::UnknownError));
    assert!(matches!(
        SendError::DisconnectedError,
        SendError::DisconnectedError
    ));
    assert!(matches!(SendError::TimeoutError, SendError::TimeoutError));
}

#[test]
fn receive_error_display_prefixes_channel_variant() {
    assert_eq!(ReceiveError::TimeoutError.display_string(), "TimeoutError");
    assert_eq!(
        ReceiveError::DisconnectedError.display_string(),
        "DisconnectedError"
    );
    let (sender, receiver) = std::sync::mpsc::channel::<u8>();
    drop(sender);
    let channel_err = receiver.recv().unwrap_err();
    assert_eq!(
        ReceiveError::ChannelError(channel_err).display_string(),
        "ChannelError: receiving on an empty and disconnected channel"
    );
}

#[test]
fn base_consensus_peer_accessors() {
    let mut peer: BaseConsensusPeer<u64, String> =
        BaseConsensusPeer::new(42, "10.0.0.1:3000".to_string());
    assert_eq!(peer.get_id(), 42);
    assert_eq!(peer.get_base_addr(), "10.0.0.1:3000");
    assert_eq!(peer.get_net_addr(3), "10.0.0.1:3000");
    assert_eq!(peer.get_public_key(), "");

    peer.set_public_key("peer-public-key-one".to_string());
    assert_eq!(peer.get_public_key(), "peer-public-key-one");
    peer.set_net_addr(0, "10.0.0.2:3000".to_string());
    assert_eq!(peer.get_base_addr(), "10.0.0.2:3000");
    assert_eq!(peer.get_id(), 42);

    let same = peer.clone();
    assert_eq!(peer, same);
}

#[test]
fn transaction_types_are_distinct() {
    assert_eq!(TransactionType::PeerAdd, TransactionType::PeerAdd);
    assert_ne!(TransactionType::PeerAdd, TransactionType::PeerRemove);
    let copy = TransactionType::PeerRemove.clone();
    assert_eq!(copy, TransactionType::PeerRemove);
}

struct FixedRounds {
    rounds: u32,
}

impl ConsensusConfiguration<Vec<u8>> for FixedRounds {
    fn new() -> Self {
        FixedRounds { rounds: 3 }
    }
}

#[test]
fn consensus_configuration_builds_itself() {
    let cfg: FixedRounds = ConsensusConfiguration::<Vec<u8>>::new();
    assert_eq!(cfg.rounds, 3);
}
