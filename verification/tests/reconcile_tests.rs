use rainrun::geom::Vec2i;
use rainrun::messages::{sync_for_input, sync_msg, NetworkMessage, PlayerInput, SyncMessage};
use rainrun::player::Player;

fn input(x: i64, y: i64, tick: u64) -> PlayerInput {
    PlayerInput::new(Vec2i::new(x, y), 1, tick)
}

#[test]
fn every_due_input_leaves_the_queue() {
    let mut p = Player::new(1);
    let mut inputs = vec![input(10, 0, 5), input(20, 0, 10), input(30, 0, 11), input(40, 0, 20)];
    p.process_inputs(&mut inputs, 10);
    // Only the near-future and far-ahead inputs stay queued.
    assert_eq!(inputs.len(), 2);
    for i in &inputs {
        assert!(i.tick > 10);
    }
    assert_eq!(inputs[0].tick, 11);
    assert_eq!(inputs[1].tick, 20);
}

#[test]
fn on_time_input_applies_target_with_zero_adjustment() {
    let mut p = Player::new(2);
    let mut inputs = vec![input(15, -20, 10)];
    let update = p.process_inputs(&mut inputs, 10);
    assert!(inputs.is_empty());
    assert_eq!(p.target, Vec2i::new(15, -20));
    assert_eq!(p.adjusment_iteration, 0);
    match update {
        Some(NetworkMessage::GameUpdate(v)) => {
            assert_eq!(v.len(), 1);
            assert_eq!(v[0].tick, 10);
            assert_eq!(v[0].tick_adjustment, 0);
            assert_eq!(v[0].input, Vec2i::new(15, -20));
        }
        other => panic!("expected a game update, got {:?}", other),
    }
}

#[test]
fn late_input_earns_negative_adjustment_and_applies_target() {
    let mut p = Player::new(3);
    let mut inputs = vec![input(7, 7, 6)];
    let update = p.process_inputs(&mut inputs, 10);
    assert!(inputs.is_empty());
    assert_eq!(p.target, Vec2i::new(7, 7));
    assert_eq!(p.adjusment_iteration, 1);
    assert!(!p.adjust_complete);
    match update {
        Some(NetworkMessage::GameUpdate(v)) => {
            assert_eq!(v[0].tick_adjustment, -4);
            assert_eq!(v[0].adjusment_iteration, 1);
        }
        other => panic!("expected a game update, got {:?}", other),
    }
}

#[test]
fn far_ahead_input_is_corrected_once_and_kept() {
    let mut p = Player::new(4);
    let mut inputs = vec![input(1, 1, 20)];
    let update = p.process_inputs(&mut inputs, 10);
    assert_eq!(inputs.len(), 1);
    assert_eq!(p.msg_sent, vec![20]);
    match update {
        Some(NetworkMessage::GameUpdate(v)) => {
            assert_eq!(v[0].tick_adjustment, 10);
        }
        other => panic!("expected a game update, got {:?}", other),
    }
    // The same future tick never earns a second correction.
    let update2 = p.process_inputs(&mut inputs, 11);
    assert!(update2.is_none());
    assert_eq!(inputs.len(), 1);
    assert_eq!(p.msg_sent, vec![20]);
}

#[test]
fn adjustment_iteration_counts_runs_not_inputs() {
    let mut p = Player::new(5);
    // A contiguous run of late inputs advances the counter once.
    let mut run1 = vec![input(1, 0, 3), input(2, 0, 4)];
    p.process_inputs(&mut run1, 10);
    assert_eq!(p.adjusment_iteration, 1);
    // Another late input while the run continues adds nothing.
    let mut still = vec![input(3, 0, 9)];
    p.process_inputs(&mut still, 11);
    assert_eq!(p.adjusment_iteration, 1);
    // A near-future input marks the run complete...
    let mut steady = vec![input(4, 0, 13)];
    p.process_inputs(&mut steady, 12);
    assert!(p.adjust_complete);
    assert_eq!(p.adjusment_iteration, 1);
    // ...so the next out-of-sync run counts exactly once more.
    let mut run2 = vec![input(5, 0, 10)];
    p.process_inputs(&mut run2, 20);
    assert_eq!(p.adjusment_iteration, 2);
}

#[test]
fn queue_targets_are_clamped_into_the_world() {
    let mut p = Player::new(6);
    let mut inputs = vec![input(5000, -5000, 10)];
    p.process_inputs(&mut inputs, 10);
    assert_eq!(p.target, Vec2i::new(1000, -500));
}

#[test]
fn empty_queue_changes_nothing() {
    let mut p = Player::new(9);
    let mut inputs: Vec<PlayerInput> = Vec::new();
    let update = p.process_inputs(&mut inputs, 10);
    assert!(update.is_none());
    assert_eq!(p.adjusment_iteration, 0);
    assert!(p.adjust_complete);
    assert_eq!(p.target, rainrun::geom::Vec2i::new(0, 0));
}

#[test]
fn sync_notice_reports_signed_tick_difference() {
    assert!(sync_for_input(10, 10).is_none());
    match sync_for_input(4, 10) {
        Some(NetworkMessage::SyncClient(s)) => {
            assert_eq!(s.tick_adjustment, -6);
            assert_eq!(s.server_tick, 10);
        }
        other => panic!("expected a sync notice, got {:?}", other),
    }
    match sync_for_input(15, 10) {
        Some(NetworkMessage::SyncClient(s)) => {
            assert_eq!(s.tick_adjustment, 5);
            assert_eq!(s.server_tick, 10);
        }
        other => panic!("expected a sync notice, got {:?}", other),
    }
}

#[test]
fn sync_msg_wraps_the_adjustment() {
    let m = sync_msg(-3, 44);
    assert_eq!(
        m,
        NetworkMessage::SyncClient(SyncMessage { tick_adjustment: -3, server_tick: 44 })
    );
    let s = SyncMessage::new(2, 9);
    assert_eq!(s.tick_adjustment, 2);
    assert_eq!(s.server_tick, 9);
}
