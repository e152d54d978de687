//! The block-candidate state machine, exercised through the reference host.

use libconsensus::error::ConsensusError;
use libconsensus::model::{encode_block_id, ServiceModel};
use libconsensus::service::{CandidatePhase, Service};
use libconsensus::types::{Block, PeerInfo, StartupState};

fn head_block(num: u64) -> Block {
    Block {
        block_id: vec![num as u8],
        previous_id: if num == 0 { vec![] } else { vec![(num - 1) as u8] },
        signer_id: vec![7],
        block_num: num,
        payload: vec![],
        summary: vec![],
    }
}

fn startup(head: Block) -> StartupState {
    StartupState {
        chain_head: head,
        peers: vec![PeerInfo { peer_id: vec![9] }],
        local_peer_info: PeerInfo { peer_id: vec![1] },
    }
}

#[test]
fn initialize_twice_is_invalid_state() {
    let mut svc = ServiceModel::new(startup(head_block(5)));
    assert!(svc.initialize_block(None).is_ok());
    match svc.initialize_block(None) {
        Err(ConsensusError::InvalidState(_)) => {}
        other => panic!("expected InvalidState, got {:?}", other.map(|_| ())),
    }
    assert_eq!(svc.phase, CandidatePhase::Building);
}

#[test]
fn finalize_without_summarize_is_block_not_ready() {
    let mut svc = ServiceModel::new(startup(head_block(5)));
    assert!(svc.initialize_block(None).is_ok());
    match svc.finalize_block(b"data".to_vec()) {
        Err(ConsensusError::BlockNotReady) => {}
        other => panic!("expected BlockNotReady, got {:?}", other.map(|_| ())),
    }
}

#[test]
fn finalize_from_idle_is_invalid_state() {
    let mut svc = ServiceModel::new(startup(head_block(5)));
    match svc.finalize_block(b"data".to_vec()) {
        Err(ConsensusError::InvalidState(_)) => {}
        other => panic!("expected InvalidState, got {:?}", other.map(|_| ())),
    }
}

#[test]
fn cancel_returns_to_idle_from_building_and_summarized() {
    let mut svc = ServiceModel::new(startup(head_block(5)));

    assert!(svc.initialize_block(None).is_ok());
    assert_eq!(svc.phase, CandidatePhase::Building);
    assert!(svc.cancel_block().is_ok());
    assert_eq!(svc.phase, CandidatePhase::Idle);
    assert!(svc.initialize_block(None).is_ok());

    assert!(svc.summarize_block().is_ok());
    assert_eq!(svc.phase, CandidatePhase::Summarized);
    assert!(svc.cancel_block().is_ok());
    assert_eq!(svc.phase, CandidatePhase::Idle);
    assert!(svc.initialize_block(None).is_ok());
}

#[test]
fn cancel_from_idle_is_invalid_state() {
    let mut svc = ServiceModel::new(startup(head_block(5)));
    match svc.cancel_block() {
        Err(ConsensusError::InvalidState(_)) => {}
        other => panic!("expected InvalidState, got {:?}", other.map(|_| ())),
    }
}

#[test]
fn summarize_not_ready_is_retryable() {
    let mut svc = ServiceModel::new(startup(head_block(5)));
    svc.summary_ready = false;
    assert!(svc.initialize_block(None).is_ok());
    match svc.summarize_block() {
        Err(e) => {
            assert!(matches!(e, ConsensusError::BlockNotReady));
            assert!(e.is_retryable());
        }
        Ok(_) => panic!("expected BlockNotReady"),
    }
    // The host becomes ready; the retry succeeds without a new candidate.
    svc.summary_ready = true;
    assert!(svc.summarize_block().is_ok());
}

#[test]
fn get_blocks_with_unknown_id_fails_whole_call() {
    // The contract fixes the all-or-nothing choice: one known and one
    // unknown identifier fail with UnknownBlock, no partial result.
    let head = head_block(5);
    let known = head.block_id.clone();
    let mut svc = ServiceModel::new(startup(head));
    match svc.get_blocks(vec![known.clone(), vec![0xEE]]) {
        Err(ConsensusError::UnknownBlock(_)) => {}
        other => panic!("expected UnknownBlock, got {:?}", other.map(|_| ())),
    }
    // The known identifier alone resolves.
    let got = svc.get_blocks(vec![known.clone()]).unwrap();
    assert_eq!(got.len(), 1);
    assert_eq!(got[0].block_id, known);
}

#[test]
fn build_round_trip_yields_payload_and_parent() {
    // Startup at height 5; the host digest is fixed; the finalized block
    // carries the engine data and sits one above the head.
    let head = head_block(5);
    let head_id = head.block_id.clone();
    let mut svc = ServiceModel::new(startup(head));
    svc.pending_summary = b"sha-of-ledger-contents".to_vec();

    assert!(svc.initialize_block(None).is_ok());
    let summary = svc.summarize_block().unwrap();
    assert_eq!(summary, b"sha-of-ledger-contents".to_vec());
    let id = svc.finalize_block(b"vote=42".to_vec()).unwrap();
    assert_eq!(id, encode_block_id(0));
    assert_eq!(svc.phase, CandidatePhase::Idle);

    let got = svc.get_blocks(vec![id.clone()]).unwrap();
    assert_eq!(got.len(), 1);
    assert_eq!(got[0].block_id, id);
    assert_eq!(got[0].payload, b"vote=42".to_vec());
    assert_eq!(got[0].previous_id, head_id);
    assert_eq!(got[0].block_num, 6);
    assert_eq!(got[0].summary, b"sha-of-ledger-contents".to_vec());
    assert_eq!(got[0].signer_id, vec![1]);
}

#[test]
fn initialize_on_named_parent_and_unknown_parent() {
    let head = head_block(5);
    let head_id = head.block_id.clone();
    let mut svc = ServiceModel::new(startup(head));
    match svc.initialize_block(Some(vec![0xEE])) {
        Err(ConsensusError::UnknownBlock(_)) => {}
        other => panic!("expected UnknownBlock, got {:?}", other.map(|_| ())),
    }
    assert!(svc.initialize_block(Some(head_id)).is_ok());
}

#[test]
fn no_chain_head_before_genesis() {
    let mut svc = ServiceModel::new_empty(vec![1]);
    match svc.get_chain_head() {
        Err(ConsensusError::NoChainHead) => {}
        other => panic!("expected NoChainHead, got {:?}", other.map(|_| ())),
    }
    match svc.initialize_block(None) {
        Err(ConsensusError::NoChainHead) => {}
        other => panic!("expected NoChainHead, got {:?}", other.map(|_| ())),
    }
}

#[test]
fn commit_and_queries_track_host_state() {
    let head = head_block(5);
    let head_id = head.block_id.clone();
    let mut svc = ServiceModel::new(startup(head));
    let next = Block {
        block_id: vec![6],
        previous_id: head_id.clone(),
        signer_id: vec![7],
        block_num: 6,
        payload: vec![],
        summary: vec![],
    };
    svc.blocks.push(next);

    match svc.commit_block(vec![0xEE]) {
        Err(ConsensusError::UnknownBlock(_)) => {}
        other => panic!("expected UnknownBlock, got {:?}", other.map(|_| ())),
    }
    assert!(svc.commit_block(vec![6]).is_ok());
    assert_eq!(svc.committed, vec![vec![6u8]]);
    let new_head = svc.get_chain_head().unwrap();
    assert_eq!(new_head.block_id, vec![6]);

    assert!(svc.check_blocks(vec![vec![6], head_id.clone()]).is_ok());
    assert_eq!(svc.checked, vec![vec![6u8], head_id.clone()]);
    assert!(svc.ignore_block(vec![6]).is_ok());
    assert_eq!(svc.ignored, vec![vec![6u8]]);
    assert!(svc.fail_block(head_id.clone()).is_ok());
    assert_eq!(svc.failed, vec![head_id]);
}

#[test]
fn send_to_and_broadcast_record_messages() {
    let mut svc = ServiceModel::new(startup(head_block(5)));
    match svc.send_to(&vec![0xEE], "vote", b"yes".to_vec()) {
        Err(ConsensusError::UnknownPeer(_)) => {}
        other => panic!("expected UnknownPeer, got {:?}", other.map(|_| ())),
    }
    assert!(svc.send_to(&vec![9], "vote", b"yes".to_vec()).is_ok());
    assert!(svc.broadcast("proposal", b"p".to_vec()).is_ok());
    assert_eq!(svc.sent.len(), 2);
    assert_eq!(svc.sent[0].receiver, Some(vec![9]));
    assert_eq!(svc.sent[0].message_type, "vote");
    assert_eq!(svc.sent[0].payload, b"yes".to_vec());
    assert_eq!(svc.sent[1].receiver, None);
    assert_eq!(svc.sent[1].message_type, "proposal");
}

#[test]
fn settings_and_state_resolve_known_keys() {
    let head = head_block(5);
    let head_id = head.block_id.clone();
    let mut svc = ServiceModel::new(startup(head));
    svc.settings
        .push(("consensus.algorithm".to_string(), "reference".to_string()));
    svc.ledger_state.push(("addr1".to_string(), vec![1, 2, 3]));

    match svc.get_settings(vec![0xEE], vec!["consensus.algorithm".to_string()]) {
        Err(ConsensusError::UnknownBlock(_)) => {}
        other => panic!("expected UnknownBlock, got {:?}", other.map(|_| ())),
    }
    let entries = svc
        .get_settings(
            head_id.clone(),
            vec!["consensus.algorithm".to_string(), "missing".to_string()],
        )
        .unwrap();
    assert_eq!(entries.len(), 1);
    assert_eq!(entries[0].0, "consensus.algorithm");
    assert_eq!(entries[0].1, "reference");

    let state = svc
        .get_state(head_id, vec!["addr1".to_string(), "addr2".to_string()])
        .unwrap();
    assert_eq!(state.len(), 1);
    assert_eq!(state[0].0, "addr1");
    assert_eq!(state[0].1, vec![1, 2, 3]);
}

#[test]
fn block_identifiers_come_from_the_counter() {
    assert_eq!(encode_block_id(0), vec![0, 0, 0, 0, 0, 0, 0, 0]);
    assert_eq!(
        encode_block_id(0x0102030405060708),
        vec![1, 2, 3, 4, 5, 6, 7, 8]
    );
    assert_eq!(
        encode_block_id(u64::MAX),
        vec![0xFF, 0xFF, 0xFF, 0xFF, 0xFF, 0xFF, 0xFF, 0xFF]
    );
}
