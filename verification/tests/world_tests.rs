use rainrun::clock::TickClock;
use rainrun::config::{TICK_RATE, X_BOUNDS, Y_BOUNDS};
use rainrun::game_loop::{
    drain_due_inputs, elapsed_secs, game_loop_step, PlayerEntity, Players,
};
use rainrun::geom::{abs_i64, clamp_to_bounds, isqrt, Vec2i};
use rainrun::hazards::Objects;
use rainrun::messages::{
    ClientMessage, Damage, NetworkMessage, NewGame, NewPos, ObjectMsg, PlayerConnected,
    PlayerInput, PlayerState, Score,
};
use rainrun::movement::{apply_seek, calculate_movement};
use rainrun::player::Player;
use rainrun::scores::{copy_scores, record_high_score, should_update_high_score};

#[test]
fn integer_square_root_is_exact() {
    assert_eq!(isqrt(0), 0);
    assert_eq!(isqrt(1), 1);
    assert_eq!(isqrt(24), 4);
    assert_eq!(isqrt(25), 5);
    assert_eq!(isqrt(5_000_000), 2236);
}

#[test]
fn absolute_value_and_clamp() {
    assert_eq!(abs_i64(-7), 7);
    assert_eq!(abs_i64(7), 7);
    assert_eq!(clamp_to_bounds(Vec2i::new(2000, -900)), Vec2i::new(X_BOUNDS, -Y_BOUNDS));
    assert_eq!(clamp_to_bounds(Vec2i::new(-3, 4)), Vec2i::new(-3, 4));
}

#[test]
fn seek_step_moves_at_speed_along_the_direction() {
    // distance 50 toward (30, 40): one step of length 5 moves (3, 4)
    let m = calculate_movement(Vec2i::new(0, 0), Vec2i::new(30, 40));
    assert_eq!(m, Vec2i::new(3, 4));
    let p = apply_seek(Vec2i::new(0, 0), Vec2i::new(30, 40));
    assert_eq!(p, Vec2i::new(3, 4));
}

#[test]
fn seek_step_within_tolerance_stays_put() {
    let m = calculate_movement(Vec2i::new(100, 100), Vec2i::new(104, 104));
    assert_eq!(m, Vec2i::new(0, 0));
}

#[test]
fn short_seek_lands_on_the_target() {
    // distance 7 exceeds the tolerance but not two steps
    let m = calculate_movement(Vec2i::new(0, 0), Vec2i::new(7, 0));
    assert_eq!(m, Vec2i::new(5, 0));
    let p = apply_seek(Vec2i::new(5, 0), Vec2i::new(7, 0));
    assert_eq!(p, Vec2i::new(5, 0));
}

#[test]
fn movement_never_leaves_the_world() {
    let mut pos = Vec2i::new(990, 490);
    let target = Vec2i::new(X_BOUNDS, Y_BOUNDS);
    for _ in 0..20 {
        pos = apply_seek(pos, target);
        assert!(pos.x.abs() <= X_BOUNDS && pos.y.abs() <= Y_BOUNDS);
    }
}

#[test]
fn tick_clock_fires_once_per_period() {
    let mut c = TickClock::new();
    assert_eq!(c.on_elapsed(TICK_RATE - 1), None);
    assert_eq!(c.tick, 0);
    assert_eq!(c.on_elapsed(TICK_RATE), Some(1));
    assert_eq!(c.on_elapsed(TICK_RATE + 30), Some(2));
    assert_eq!(c.tick, 2);
}

#[test]
fn elapsed_seconds_round_down_and_never_underflow() {
    assert_eq!(elapsed_secs(5500, 2000), 3);
    assert_eq!(elapsed_secs(2000, 2000), 0);
    assert_eq!(elapsed_secs(1000, 2000), 0);
}

#[test]
fn best_time_updates_only_when_faster() {
    assert!(should_update_high_score(None, 100));
    assert!(should_update_high_score(Some(10), 5));
    assert!(!should_update_high_score(Some(5), 10));
    assert!(!should_update_high_score(Some(5), 5));
}

#[test]
fn best_time_table_keeps_the_fastest_runs() {
    let mut t: Vec<(String, u64)> = Vec::new();
    record_high_score(&mut t, &String::from("ada"), 30);
    record_high_score(&mut t, &String::from("bob"), 10);
    record_high_score(&mut t, &String::from("cyd"), 20);
    assert_eq!(
        t,
        vec![
            (String::from("bob"), 10),
            (String::from("cyd"), 20),
            (String::from("ada"), 30),
        ]
    );
    // A slower run by a listed player changes nothing.
    record_high_score(&mut t, &String::from("bob"), 99);
    assert_eq!(t.len(), 3);
    assert_eq!(t[0], (String::from("bob"), 10));
    // A faster run replaces the old best.
    record_high_score(&mut t, &String::from("ada"), 5);
    assert_eq!(t[0], (String::from("ada"), 5));
    assert_eq!(t.len(), 3);
    // The table never grows beyond the five fastest.
    record_high_score(&mut t, &String::from("dan"), 1);
    record_high_score(&mut t, &String::from("eve"), 2);
    record_high_score(&mut t, &String::from("fay"), 3);
    record_high_score(&mut t, &String::from("gus"), 4);
    assert_eq!(t.len(), 5);
    assert_eq!(t[0], (String::from("dan"), 1));
    // A run beating the slowest enters even a full table.
    record_high_score(&mut t, &String::from("hal"), 3);
    assert_eq!(t.len(), 5);
    assert!(t.contains(&(String::from("hal"), 3)));
    assert!(!t.iter().any(|e| e.0 == "ada"));
    // A run slower than all five is dropped.
    record_high_score(&mut t, &String::from("ivy"), 99);
    assert_eq!(t.len(), 5);
    assert!(!t.iter().any(|e| e.0 == "ivy"));
}

#[test]
fn score_table_copies_exactly() {
    let table = vec![(String::from("ada"), 12u64), (String::from("bob"), 30u64)];
    assert_eq!(copy_scores(&table), table);
}

#[test]
fn due_inputs_drain_and_latest_target_wins() {
    let mut p = PlayerEntity::new(1, String::from("ada"), false, 0);
    p.pending = vec![
        PlayerInput::new(Vec2i::new(10, 0), 1, 3),
        PlayerInput::new(Vec2i::new(20, 0), 1, 5),
        PlayerInput::new(Vec2i::new(30, 0), 1, 9),
    ];
    let consumed = drain_due_inputs(&mut p, 5);
    assert!(consumed);
    assert_eq!(p.target, Vec2i::new(20, 0));
    assert_eq!(p.pending.len(), 1);
    assert_eq!(p.pending[0].tick, 9);
}

#[test]
fn world_tick_admits_moves_and_snapshots() {
    let mut players = Players(Vec::new());
    let mut objects = Objects::new(2);
    let ada = PlayerEntity::new(1, String::from("ada"), false, 0);
    let connected = vec![1u64];
    let mut table: Vec<(String, u64)> = Vec::new();
    let out = game_loop_step(
        &mut players,
        &mut objects,
        vec![ada],
        &connected,
        1,
        100,
        &mut table,
    );
    assert_eq!(players.0.len(), 1);
    assert!(out.snapshot.is_none());
    // The tenth tick takes a roster snapshot and prunes by connection.
    let out10 = game_loop_step(
        &mut players,
        &mut objects,
        Vec::new(),
        &connected,
        10,
        1000,
        &mut table,
    );
    let snap = out10.snapshot.expect("snapshot tick");
    assert_eq!(snap.len(), 1);
    assert_eq!(snap[0].id, 1);
    assert_eq!(snap[0].name.as_deref(), Some("ada"));
    // A lost connection prunes the player on the next snapshot tick.
    let out20 = game_loop_step(
        &mut players,
        &mut objects,
        Vec::new(),
        &Vec::new(),
        20,
        2000,
        &mut table,
    );
    assert_eq!(players.0.len(), 0);
    assert_eq!(out20.snapshot.expect("snapshot tick").len(), 0);
}

#[test]
fn world_tick_consumes_due_inputs_and_reports_updates() {
    let mut players = Players(Vec::new());
    let mut objects = Objects::new(5);
    let mut ada = PlayerEntity::new(1, String::from("ada"), false, 0);
    ada.pending = vec![PlayerInput::new(Vec2i::new(100, 0), 1, 2)];
    let mut table: Vec<(String, u64)> = Vec::new();
    let out = game_loop_step(
        &mut players,
        &mut objects,
        vec![ada],
        &vec![1u64],
        2,
        200,
        &mut table,
    );
    assert_eq!(out.updates.len(), 1);
    assert_eq!(out.updates[0].tick, 2);
    assert_eq!(out.updates[0].tick_adjustment, 0);
    assert_eq!(out.updates[0].id, 1);
    assert!(players.0[0].pending.is_empty());
    // One seek step of length five toward (100, 0).
    assert_eq!(players.0[0].pos, Vec2i::new(5, 0));
}

#[test]
fn message_constructors_carry_their_fields() {
    let np = NewPos::new(Vec2i::new(1, 2), 3, 4, Vec2i::new(5, 6), -7, 8);
    assert_eq!(np.input, Vec2i::new(1, 2));
    assert_eq!(np.tick, 3);
    assert_eq!(np.id, 4);
    assert_eq!(np.pos, Vec2i::new(5, 6));
    assert_eq!(np.tick_adjustment, -7);
    assert_eq!(np.adjusment_iteration, 8);

    let om = ObjectMsg::new(vec![(1, Vec2i::new(2, 3))], Vec::new());
    let ng = NewGame::new(9, 10, 11, vec![(String::from("ada"), 12)], om.clone());
    assert_eq!(ng.id, 9);
    assert_eq!(ng.server_tick, 10);
    assert_eq!(ng.rng_seed, 11);
    assert_eq!(ng.objects, om);

    let ps = PlayerState::new(Vec2i::new(0, 0), Vec2i::new(1, 1), 2, None, 3, 4, true);
    assert_eq!(ps.score, 2);
    assert!(ps.alive);

    let d = Damage::new(1, Some(2), 3, None, Vec2i::new(4, 5), 6, true);
    assert_eq!(d.tick, Some(2));
    assert!(d.win);

    let s = Score::new(1, 2, 3);
    assert_eq!((s.id, s.score, s.tick), (1, 2, 3));

    let pc = PlayerConnected::new(1, String::from("ada"));
    assert_eq!(pc.name, "ada");

    let ci = ClientMessage::PlayerName(String::from("ada"));
    assert!(matches!(ci, ClientMessage::PlayerName(_)));
}

#[test]
fn session_bootstrap_marks_itself_sent() {
    let mut s = Player::new(3);
    assert!(!s.new_game_sent);
    let om = ObjectMsg::new(Vec::new(), Vec::new());
    let m = s.new_game(17, 42, Vec::new(), om);
    assert!(s.new_game_sent);
    match m {
        NetworkMessage::NewGame(ng) => {
            assert_eq!(ng.id, 3);
            assert_eq!(ng.server_tick, 17);
            assert_eq!(ng.rng_seed, 42);
        }
        other => panic!("expected a bootstrap message, got {:?}", other),
    }
}

#[test]
fn name_claim_reports_payable_format() {
    let mut a = Player::new(1);
    let (_, payable) = a.player_name(String::from("satoshi@zbd.gg"), 0);
    assert!(payable);
    let mut b = Player::new(2);
    let (_, payable2) = b.player_name(String::from("not an address"), 0);
    assert!(!payable2);
    assert_eq!(b.name, "not an address");
    assert!(b.game_start);
    assert_eq!(b.spawn_time, Some(0));
}
