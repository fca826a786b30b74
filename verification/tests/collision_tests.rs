use rainrun::config::{BOLT_REWARD, WIN_REWARD, WIN_SCORE, X_BOUNDS, Y_BOUNDS};
use rainrun::game_loop::{resolve_bolts_for, resolve_rain_for, Effect, PlayerEntity, Players};
use rainrun::geom::Vec2i;
use rainrun::hazards::{ObjectPos, Objects};
use rainrun::messages::{NetworkMessage, PlayerInput};
use rainrun::player::Player;

fn player_at(id: u64, x: i64, y: i64) -> PlayerEntity {
    let mut p = PlayerEntity::new(id, String::from("ada"), false, 0);
    p.pos = Vec2i::new(x, y);
    p
}

fn hazard(tick: u64, x: i64, y: i64) -> ObjectPos {
    ObjectPos { tick, pos: Vec2i { x, y } }
}

#[test]
fn bolt_hit_raises_score_by_one() {
    let mut p = player_at(1, 0, 0);
    p.score = 3;
    let mut bolts = vec![hazard(5, 4, -4)];
    let mut table: Vec<(String, u64)> = Vec::new();
    let effects = resolve_bolts_for(&mut p, &mut bolts, 1000, &mut table);
    assert!(bolts.is_empty());
    assert!(p.alive);
    assert_eq!(p.score, 4);
    assert_eq!(effects.len(), 1);
    match &effects[0] {
        Effect::Broadcast(NetworkMessage::ScoreUpdate(s)) => {
            assert_eq!(s.id, 1);
            assert_eq!(s.score, 4);
            assert_eq!(s.tick, 5);
        }
        other => panic!("expected a score update, got {:?}", other),
    }
}

#[test]
fn bolt_out_of_reach_changes_nothing() {
    let mut p = player_at(1, 0, 0);
    let mut bolts = vec![hazard(5, 10, 0), hazard(6, 0, -10)];
    let mut table: Vec<(String, u64)> = Vec::new();
    let effects = resolve_bolts_for(&mut p, &mut bolts, 1000, &mut table);
    assert_eq!(bolts.len(), 2);
    assert_eq!(p.score, 0);
    assert!(effects.is_empty());
}

#[test]
fn win_at_threshold_ends_session_and_pays_once() {
    let mut p = PlayerEntity::new(9, String::from("sat@zbd.gg"), true, 2000);
    p.score = WIN_SCORE - 1;
    let mut bolts = vec![hazard(50, 1, 1)];
    let mut table: Vec<(String, u64)> = Vec::new();
    let effects = resolve_bolts_for(&mut p, &mut bolts, 65_000, &mut table);
    assert!(!p.alive);
    assert_eq!(p.score, 0);
    assert!(p.pending.is_empty());
    // score update, per-bolt payout, win payout, best-time record, win notice
    assert_eq!(effects.len(), 5);
    let win_payouts = effects
        .iter()
        .filter(|e| matches!(e, Effect::Payout { amount, .. } if *amount == WIN_REWARD))
        .count();
    assert_eq!(win_payouts, 1);
    let bolt_payouts = effects
        .iter()
        .filter(|e| matches!(e, Effect::Payout { amount, .. } if *amount == BOLT_REWARD))
        .count();
    assert_eq!(bolt_payouts, 1);
    match &effects[3] {
        Effect::RecordHighScore { name, secs_alive } => {
            assert_eq!(name, "sat@zbd.gg");
            assert_eq!(*secs_alive, 63);
        }
        other => panic!("expected a best-time record, got {:?}", other),
    }
    match &effects[4] {
        Effect::Broadcast(NetworkMessage::DamagePlayer(d)) => {
            assert!(d.win);
            assert_eq!(d.id, 9);
            assert_eq!(d.tick, None);
            assert_eq!(d.score, WIN_SCORE);
            assert_eq!(d.secs_alive, 63);
            // the win notice carries the freshly recorded table
            assert_eq!(d.high_scores, Some(vec![(String::from("sat@zbd.gg"), 63)]));
        }
        other => panic!("expected a win notice, got {:?}", other),
    }
    assert_eq!(table, vec![(String::from("sat@zbd.gg"), 63)]);
}

#[test]
fn rain_hit_ends_life_and_clears_inputs() {
    let mut p = player_at(4, 100, 100);
    p.pending = vec![PlayerInput::new(Vec2i::new(1, 1), 4, 99)];
    let mut rain = vec![hazard(17, 105, 95)];
    let effects = resolve_rain_for(&mut p, &mut rain, 9000);
    assert!(rain.is_empty());
    assert!(!p.alive);
    assert!(p.pending.is_empty());
    assert_eq!(effects.len(), 1);
    match &effects[0] {
        Effect::Broadcast(NetworkMessage::DamagePlayer(d)) => {
            assert!(!d.win);
            assert_eq!(d.id, 4);
            assert_eq!(d.tick, Some(17));
            assert_eq!(d.pos, Vec2i::new(100, 100));
            // a lost life carries no high-score list
            assert_eq!(d.high_scores, None);
        }
        other => panic!("expected a damage notice, got {:?}", other),
    }
}

#[test]
fn hit_threshold_is_strict() {
    let mut p = player_at(1, 0, 0);
    let mut rain = vec![hazard(1, 10, 0)];
    let e = resolve_rain_for(&mut p, &mut rain, 0);
    assert!(e.is_empty());
    assert!(p.alive);
    assert_eq!(rain.len(), 1);
    let mut rain2 = vec![hazard(1, 9, 9)];
    let e2 = resolve_rain_for(&mut p, &mut rain2, 0);
    assert_eq!(e2.len(), 1);
    assert!(!p.alive);
}

#[test]
fn dead_player_consumes_nothing() {
    let mut p = player_at(4, 0, 0);
    p.alive = false;
    let mut rain = vec![hazard(1, 0, 0)];
    let mut bolts = vec![hazard(2, 0, 0)];
    let e1 = resolve_rain_for(&mut p, &mut rain, 0);
    let mut table: Vec<(String, u64)> = Vec::new();
    let e2 = resolve_bolts_for(&mut p, &mut bolts, 0, &mut table);
    assert!(e1.is_empty() && e2.is_empty());
    assert_eq!(rain.len(), 1);
    assert_eq!(bolts.len(), 1);
}

#[test]
fn world_pass_hands_a_hazard_to_the_first_overlapping_player() {
    let mut objects = Objects::new(3);
    objects.bolt_pos.push(hazard(5, 0, 0));
    let mut players = Players(vec![player_at(1, 0, 0), player_at(2, 0, 0)]);
    let mut table: Vec<(String, u64)> = Vec::new();
    let effects = objects.collision(&mut players, 0, &mut table);
    assert!(objects.bolt_pos.is_empty());
    assert_eq!(players.0[0].score, 1);
    assert_eq!(players.0[1].score, 0);
    assert_eq!(effects.len(), 1);
}

#[test]
fn session_collects_a_falling_bolt() {
    let mut s = Player::new(7);
    let (msg, _payable) = s.player_name(String::from("ada"), 0);
    assert!(matches!(msg, NetworkMessage::PlayerConnected(_)));
    s.bolt.push(hazard(2, 0, 3));
    // On a non-bolt tick the session spawns rain far above while the
    // queued bolt falls onto the player.
    let mut table: Vec<(String, u64)> = Vec::new();
    let effects = s.objects(1, 7, 1000, false, &mut table);
    assert_eq!(s.score, 1);
    assert!(s.game_start);
    assert_eq!(effects.len(), 1);
    match &effects[0] {
        Effect::Broadcast(NetworkMessage::ScoreUpdate(u)) => {
            assert_eq!(u.score, 1);
            assert_eq!(u.tick, 2);
        }
        other => panic!("expected a score update, got {:?}", other),
    }
}

#[test]
fn session_win_resets_and_pays_once() {
    let mut s = Player::new(11);
    s.player_name(String::from("sat@zbd.gg"), 0);
    s.score = WIN_SCORE - 1;
    s.bolt.push(hazard(4, 0, 3));
    let mut table: Vec<(String, u64)> = Vec::new();
    let effects = s.objects(1, 7, 21_000, true, &mut table);
    assert!(!s.game_start);
    assert_eq!(s.score, 0);
    let win_payouts = effects
        .iter()
        .filter(|e| matches!(e, Effect::Payout { amount, .. } if *amount == WIN_REWARD))
        .count();
    assert_eq!(win_payouts, 1);
    match effects.last() {
        Some(Effect::Broadcast(NetworkMessage::DamagePlayer(d))) => {
            assert!(d.win);
            assert_eq!(d.secs_alive, 21);
        }
        other => panic!("expected a win notice, got {:?}", other),
    }
}

#[test]
fn session_rain_death_resets_the_session() {
    let mut s = Player::new(8);
    s.player_name(String::from("bob"), 0);
    s.pos = Vec2i::new(200, -100);
    s.target = Vec2i::new(250, -100);
    s.score = 5;
    s.rain.push(hazard(3, 205, -97));
    let mut table: Vec<(String, u64)> = Vec::new();
    let effects = s.objects(1, 8, 4000, false, &mut table);
    assert!(!s.game_start);
    assert_eq!(s.score, 0);
    assert_eq!(s.target, s.pos);
    assert_eq!(effects.len(), 1);
    match &effects[0] {
        Effect::Broadcast(NetworkMessage::DamagePlayer(d)) => {
            assert!(!d.win);
            assert_eq!(d.tick, Some(3));
            assert_eq!(d.secs_alive, 4);
            assert_eq!(d.high_scores, None);
        }
        other => panic!("expected a damage notice, got {:?}", other),
    }
}

#[test]
fn deterministic_outcome_at_generated_position() {
    // Replaying ticks 1..=5 from the same seed always produces the
    // same hazards, and a player standing at the tick-3 spawn point
    // takes damage, since 3 is not a bolt tick.
    let mut a = Objects::new(42);
    let mut b = Objects::new(42);
    for t in 1..=5u64 {
        a.move_rain(t);
        a.move_bolts(t);
        b.move_rain(t);
        b.move_bolts(t);
    }
    assert_eq!(a.rain_pos, b.rain_pos);
    assert_eq!(a.bolt_pos, b.bolt_pos);
    let spawned_at_3 = a.rain_pos.iter().find(|h| h.tick == 3).expect("tick 3 spawns rain");
    assert!(spawned_at_3.pos.x.abs() <= X_BOUNDS && spawned_at_3.pos.y.abs() <= Y_BOUNDS);
    let mut p = player_at(1, spawned_at_3.pos.x, spawned_at_3.pos.y);
    let mut rain = a.rain_pos.clone();
    let effects = resolve_rain_for(&mut p, &mut rain, 0);
    assert!(!p.alive);
    assert!(!effects.is_empty());
}
