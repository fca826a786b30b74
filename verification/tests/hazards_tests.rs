use rainrun::config::{FALL_SPEED, X_BOUNDS, Y_BOUNDS};
use rainrun::geom::Vec2i;
use rainrun::hazards::{ObjectPos, Objects};

#[test]
fn generator_is_deterministic_per_seed_and_tick() {
    let mut a = Objects::new(42);
    let mut b = Objects::new(42);
    for tick in 1..=20u64 {
        a.move_rain(tick);
        a.move_bolts(tick);
        b.move_rain(tick);
        b.move_bolts(tick);
    }
    assert_eq!(a.rain_pos, b.rain_pos);
    assert_eq!(a.bolt_pos, b.bolt_pos);
}

#[test]
fn spawn_kind_follows_tick_modulo_five() {
    let mut o = Objects::new(7);
    o.move_rain(3);
    o.move_bolts(3);
    assert_eq!(o.rain_pos.len(), 1);
    assert_eq!(o.bolt_pos.len(), 0);
    let mut p = Objects::new(7);
    p.move_rain(5);
    p.move_bolts(5);
    assert_eq!(p.rain_pos.len(), 0);
    assert_eq!(p.bolt_pos.len(), 1);
}

#[test]
fn spawned_hazard_starts_at_top_and_falls() {
    let mut o = Objects::new(99);
    o.move_rain(1);
    assert_eq!(o.rain_pos.len(), 1);
    let h = &o.rain_pos[0];
    assert_eq!(h.tick, 1);
    assert_eq!(h.pos.y, Y_BOUNDS - FALL_SPEED);
    // The drawn coordinate must land inside the world's width; a
    // generator that echoed its seed back would fall far outside.
    assert!(h.pos.x >= -X_BOUNDS && h.pos.x < X_BOUNDS);
}

#[test]
fn hazards_stay_inside_bounds_for_all_ticks() {
    let mut o = Objects::new(42);
    for tick in 1..=400u64 {
        o.move_rain(tick);
        o.move_bolts(tick);
        for h in o.rain_pos.iter().chain(o.bolt_pos.iter()) {
            assert!(h.pos.x.abs() <= X_BOUNDS);
            assert!(h.pos.y.abs() <= Y_BOUNDS);
        }
    }
}

#[test]
fn out_of_bounds_hazards_are_dropped() {
    let mut o = Objects::new(1);
    o.rain_pos.push(ObjectPos { tick: 0, pos: Vec2i { x: 0, y: -Y_BOUNDS } });
    // Falling below the floor must silently discard the hazard while
    // a bolt tick spawns nothing damaging.
    o.move_rain(5);
    assert!(o.rain_pos.is_empty());
}

#[test]
fn snapshot_lists_every_live_hazard() {
    let mut o = Objects::new(13);
    o.move_rain(1);
    o.move_rain(2);
    o.move_bolts(5);
    let m = o.update_global_objects();
    assert_eq!(m.rain_pos.len(), o.rain_pos.len());
    assert_eq!(m.bolt_pos.len(), o.bolt_pos.len());
    for (i, h) in o.rain_pos.iter().enumerate() {
        assert_eq!(m.rain_pos[i], (h.tick, h.pos));
    }
    for (i, h) in o.bolt_pos.iter().enumerate() {
        assert_eq!(m.bolt_pos[i], (h.tick, h.pos));
    }
}
