//! The reference engine's event loop: ordering, unknown messages, and the
//! handling of validated, invalidated and committed blocks.

use libconsensus::channel::{UpdateChannel, UpdateSource};
use libconsensus::engine::{ConsensusEngine, ReferenceEngine};
use libconsensus::error::ConsensusError;
use libconsensus::model::{encode_block_id, ServiceModel};
use libconsensus::service::Service;
use libconsensus::types::{Block, PeerInfo, PeerMessage, PeerMessageHeader, StartupState, Update};

fn head_block(num: u64) -> Block {
    Block {
        block_id: vec![num as u8],
        previous_id: if num == 0 { vec![] } else { vec![(num - 1) as u8] },
        signer_id: vec![7],
        block_num: num,
        payload: vec![],
        summary: vec![],
    }
}

fn startup(head: Block) -> StartupState {
    StartupState {
        chain_head: head,
        peers: vec![PeerInfo { peer_id: vec![9] }],
        local_peer_info: PeerInfo { peer_id: vec![1] },
    }
}

fn message(message_type: &str, content: &[u8]) -> PeerMessage {
    PeerMessage {
        header: PeerMessageHeader {
            signer_id: vec![9],
            content_sha512: vec![],
            message_type: message_type.to_string(),
            name: "ref".to_string(),
            version: "1.0".to_string(),
        },
        header_bytes: vec![],
        header_signature: vec![],
        content: content.to_vec(),
    }
}

fn child_of(head: &Block, id: u8) -> Block {
    Block {
        block_id: vec![id],
        previous_id: head.block_id.clone(),
        signer_id: vec![7],
        block_num: head.block_num + 1,
        payload: vec![],
        summary: vec![],
    }
}

#[test]
fn engine_reports_its_identity() {
    let engine = ReferenceEngine::new("ref".to_string(), "1.0".to_string());
    let identity = engine.get_identity();
    assert_eq!(identity.name, "ref");
    assert_eq!(identity.version, "1.0");
}

#[test]
fn no_update_is_observed_after_shutdown() {
    let head = head_block(5);
    let after = child_of(&head, 6);
    let mut svc = ServiceModel::new(startup(head));
    svc.blocks.push(after.clone());

    let mut channel = UpdateChannel::new();
    channel.send(Update::Shutdown);
    // Delivered after Shutdown: a conforming engine must never observe it.
    channel.send(Update::BlockNew(after));

    let mut engine = ReferenceEngine::new("ref".to_string(), "1.0".to_string());
    let startup_again = startup(head_block(5));
    assert!(engine
        .start(&mut channel, &mut svc, startup_again)
        .is_ok());
    // Had the engine processed BlockNew, the host would have been asked to
    // validate it.
    assert!(svc.checked.is_empty());
    // The update stayed in the channel.
    assert!(channel.next_update().is_some());
}

#[test]
fn exhausted_channel_without_shutdown_is_receive_error() {
    let mut svc = ServiceModel::new(startup(head_block(5)));
    let mut channel = UpdateChannel::new();
    let mut engine = ReferenceEngine::new("ref".to_string(), "1.0".to_string());
    match engine.start(&mut channel, &mut svc, startup(head_block(5))) {
        Err(ConsensusError::ReceiveError(_)) => {}
        other => panic!("expected ReceiveError, got {:?}", other.map(|_| ())),
    }
}

#[test]
fn locally_handled_stream_without_shutdown_is_receive_error() {
    // Peer bookkeeping and an invalidation need no service call; with no
    // shutdown notification the run still ends in the channel-exhaustion
    // error.
    let mut svc = ServiceModel::new(startup(head_block(5)));
    let mut channel = UpdateChannel::new();
    channel.send(Update::PeerConnected(PeerInfo { peer_id: vec![12] }));
    channel.send(Update::PeerDisconnected(vec![9]));
    channel.send(Update::BlockInvalid(vec![0xAB]));

    let mut engine = ReferenceEngine::new("ref".to_string(), "1.0".to_string());
    match engine.start(&mut channel, &mut svc, startup(head_block(5))) {
        Err(ConsensusError::ReceiveError(_)) => {}
        other => panic!("expected ReceiveError, got {:?}", other.map(|_| ())),
    }
    assert!(svc.committed.is_empty());
    assert!(svc.sent.is_empty());
}

#[test]
fn unknown_message_type_is_ignored_and_processing_continues() {
    let head = head_block(5);
    let next = child_of(&head, 6);
    let mut svc = ServiceModel::new(startup(head));
    svc.blocks.push(next.clone());

    let mut channel = UpdateChannel::new();
    channel.send(Update::PeerMessage(message("gossip-unknown", b"x"), vec![9]));
    channel.send(Update::BlockNew(next));
    channel.send(Update::Shutdown);

    let mut engine = ReferenceEngine::new("ref".to_string(), "1.0".to_string());
    assert!(engine
        .start(&mut channel, &mut svc, startup(head_block(5)))
        .is_ok());
    // The unknown message changed nothing, and the later update was still
    // processed.
    assert_eq!(svc.checked, vec![vec![6u8]]);
    assert!(svc.sent.is_empty());
}

#[test]
fn validated_block_extending_head_is_committed() {
    let head = head_block(5);
    let next = child_of(&head, 6);
    let mut svc = ServiceModel::new(startup(head));
    svc.blocks.push(next.clone());

    let mut channel = UpdateChannel::new();
    channel.send(Update::BlockNew(next.clone()));
    channel.send(Update::BlockValid(next.block_id.clone()));
    channel.send(Update::BlockCommit(next.block_id.clone()));
    channel.send(Update::Shutdown);

    let mut engine = ReferenceEngine::new("ref".to_string(), "1.0".to_string());
    assert!(engine
        .start(&mut channel, &mut svc, startup(head_block(5)))
        .is_ok());
    assert_eq!(svc.checked, vec![vec![6u8]]);
    assert_eq!(svc.committed, vec![vec![6u8]]);
    assert_eq!(svc.get_chain_head().unwrap().block_id, vec![6]);
}

#[test]
fn invalidated_block_is_never_committed() {
    // A fork block is queued for commit (it does not extend the head yet);
    // then the host reports it invalid; the engine must not commit it, even
    // when it is reported valid again later.
    let head = head_block(5);
    let fork = Block {
        block_id: vec![0xAB],
        previous_id: vec![0xAA],
        signer_id: vec![7],
        block_num: 7,
        payload: vec![],
        summary: vec![],
    };
    let mut svc = ServiceModel::new(startup(head));
    svc.blocks.push(fork.clone());

    let mut channel = UpdateChannel::new();
    channel.send(Update::BlockNew(fork.clone()));
    channel.send(Update::BlockValid(fork.block_id.clone()));
    channel.send(Update::BlockInvalid(fork.block_id.clone()));
    channel.send(Update::BlockValid(fork.block_id.clone()));
    channel.send(Update::BlockNew(fork.clone()));
    channel.send(Update::Shutdown);

    let mut engine = ReferenceEngine::new("ref".to_string(), "1.0".to_string());
    assert!(engine
        .start(&mut channel, &mut svc, startup(head_block(5)))
        .is_ok());
    // Validation was requested once, before the invalidation; nothing was
    // ever committed.
    assert_eq!(svc.checked, vec![vec![0xABu8]]);
    assert!(svc.committed.is_empty());
}

#[test]
fn propose_message_runs_one_build_cycle() {
    let head = head_block(5);
    let head_id = head.block_id.clone();
    let mut svc = ServiceModel::new(startup(head));
    svc.pending_summary = b"digest".to_vec();

    let mut channel = UpdateChannel::new();
    channel.send(Update::PeerMessage(message("propose", b"vote=42"), vec![9]));
    channel.send(Update::Shutdown);

    let mut engine = ReferenceEngine::new("ref".to_string(), "1.0".to_string());
    assert!(engine
        .start(&mut channel, &mut svc, startup(head_block(5)))
        .is_ok());

    // The finalized block is on record under the minted identifier, carries
    // the message content as payload, and was announced to every peer.
    let id = encode_block_id(0);
    let got = svc.get_blocks(vec![id.clone()]).unwrap();
    assert_eq!(got[0].payload, b"vote=42".to_vec());
    assert_eq!(got[0].previous_id, head_id);
    assert_eq!(got[0].block_num, 6);
    assert_eq!(svc.sent.len(), 1);
    assert_eq!(svc.sent[0].receiver, None);
    assert_eq!(svc.sent[0].message_type, "block");
    assert_eq!(svc.sent[0].payload, id);
}

#[test]
fn propose_when_host_not_ready_abandons_candidate() {
    let head = head_block(5);
    let mut svc = ServiceModel::new(startup(head));
    svc.summary_ready = false;

    let mut channel = UpdateChannel::new();
    channel.send(Update::PeerMessage(message("propose", b"vote=42"), vec![9]));
    channel.send(Update::Shutdown);

    let mut engine = ReferenceEngine::new("ref".to_string(), "1.0".to_string());
    assert!(engine
        .start(&mut channel, &mut svc, startup(head_block(5)))
        .is_ok());
    // No block was minted, nothing announced, and the machine is idle again.
    assert!(svc.sent.is_empty());
    assert!(svc.get_blocks(vec![encode_block_id(0)]).is_err());
    assert!(svc.initialize_block(None).is_ok());
}

#[test]
fn peer_events_maintain_the_peer_set() {
    let head = head_block(5);
    let mut svc = ServiceModel::new(startup(head));
    svc.peers.push(vec![12]);

    let mut channel = UpdateChannel::new();
    channel.send(Update::PeerConnected(PeerInfo { peer_id: vec![12] }));
    channel.send(Update::PeerDisconnected(vec![9]));
    channel.send(Update::Shutdown);

    let mut engine = ReferenceEngine::new("ref".to_string(), "1.0".to_string());
    assert!(engine
        .start(&mut channel, &mut svc, startup(head_block(5)))
        .is_ok());
}

#[test]
fn channel_delivers_in_first_in_first_out_order() {
    let mut channel = UpdateChannel::new();
    channel.send(Update::BlockValid(vec![1]));
    channel.send(Update::BlockValid(vec![2]));
    channel.send(Update::Shutdown);

    match channel.next_update() {
        Some(Update::BlockValid(id)) => assert_eq!(id, vec![1]),
        other => panic!("unexpected update {:?}", other),
    }
    match channel.next_update() {
        Some(Update::BlockValid(id)) => assert_eq!(id, vec![2]),
        other => panic!("unexpected update {:?}", other),
    }
    assert!(matches!(channel.next_update(), Some(Update::Shutdown)));
    assert!(channel.next_update().is_none());
}

#[test]
fn commit_of_unseen_block_resyncs_head_from_host() {
    // The host commits a block the engine never tracked; the engine falls
    // back to the host's chain head and keeps following from there.
    let head = head_block(5);
    let unseen = child_of(&head, 6);
    let mut svc = ServiceModel::new(startup(head));
    svc.blocks.push(unseen.clone());
    svc.chain_head = Some(unseen.clone());

    let grandchild = child_of(&unseen, 7);
    svc.blocks.push(grandchild.clone());

    let mut channel = UpdateChannel::new();
    channel.send(Update::BlockCommit(unseen.block_id.clone()));
    channel.send(Update::BlockNew(grandchild.clone()));
    channel.send(Update::BlockValid(grandchild.block_id.clone()));
    channel.send(Update::Shutdown);

    let mut engine = ReferenceEngine::new("ref".to_string(), "1.0".to_string());
    assert!(engine
        .start(&mut channel, &mut svc, startup(head_block(5)))
        .is_ok());
    // The engine adopted block 6 as its head, so the grandchild extending it
    // was committed.
    assert_eq!(svc.committed, vec![vec![7u8]]);
}
