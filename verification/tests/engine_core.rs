//! The engine core's per-update decisions, driven directly.

use libconsensus::engine::EngineCore;
use libconsensus::model::ServiceModel;
use libconsensus::types::{Block, PeerInfo, StartupState, Update};

fn head_block(num: u64) -> Block {
    Block {
        block_id: vec![num as u8],
        previous_id: if num == 0 { vec![] } else { vec![(num - 1) as u8] },
        signer_id: vec![7],
        block_num: num,
        payload: vec![],
        summary: vec![],
    }
}

fn startup(head: Block) -> StartupState {
    StartupState {
        chain_head: head,
        peers: vec![PeerInfo { peer_id: vec![9] }],
        local_peer_info: PeerInfo { peer_id: vec![1] },
    }
}

#[test]
fn core_adopts_startup_state() {
    let core = EngineCore::new(startup(head_block(5)));
    assert_eq!(core.head.block_num, 5);
    assert_eq!(core.peers, vec![vec![9u8]]);
    assert!(core.pending.is_empty());
    assert!(core.ready.is_empty());
    assert!(core.invalid.is_empty());
}

#[test]
fn core_keeps_peer_set_without_duplicates() {
    let mut core = EngineCore::new(startup(head_block(5)));
    let mut svc = ServiceModel::new(startup(head_block(5)));

    let r = core.handle_update(
        Update::PeerConnected(PeerInfo { peer_id: vec![12] }),
        &mut svc,
    );
    assert_eq!(r.unwrap(), true);
    let r = core.handle_update(
        Update::PeerConnected(PeerInfo { peer_id: vec![12] }),
        &mut svc,
    );
    assert_eq!(r.unwrap(), true);
    assert_eq!(core.peers, vec![vec![9u8], vec![12u8]]);

    let r = core.handle_update(Update::PeerDisconnected(vec![9]), &mut svc);
    assert_eq!(r.unwrap(), true);
    assert_eq!(core.peers, vec![vec![12u8]]);
}

#[test]
fn core_queues_valid_fork_without_committing() {
    let mut core = EngineCore::new(startup(head_block(5)));
    let mut svc = ServiceModel::new(startup(head_block(5)));
    let fork = Block {
        block_id: vec![0xAB],
        previous_id: vec![0xAA],
        signer_id: vec![7],
        block_num: 7,
        payload: vec![],
        summary: vec![],
    };
    svc.blocks.push(fork.clone());

    assert_eq!(
        core.handle_update(Update::BlockNew(fork.clone()), &mut svc)
            .unwrap(),
        true
    );
    assert_eq!(core.pending.len(), 1);
    assert_eq!(
        core.handle_update(Update::BlockValid(fork.block_id.clone()), &mut svc)
            .unwrap(),
        true
    );
    // Validated but not extending the head: queued for commit, not committed.
    assert!(core.pending.is_empty());
    assert_eq!(core.ready.len(), 1);
    assert_eq!(core.ready[0].block_id, vec![0xAB]);
    assert!(svc.committed.is_empty());

    // Invalidation drops it from the queue for good.
    assert_eq!(
        core.handle_update(Update::BlockInvalid(fork.block_id.clone()), &mut svc)
            .unwrap(),
        true
    );
    assert!(core.ready.is_empty());
    assert_eq!(core.invalid, vec![vec![0xABu8]]);
}

#[test]
fn core_stops_on_shutdown() {
    let mut core = EngineCore::new(startup(head_block(5)));
    let mut svc = ServiceModel::new(startup(head_block(5)));
    assert_eq!(core.handle_update(Update::Shutdown, &mut svc).unwrap(), false);
}
