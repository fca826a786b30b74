//! The deterministic hazard generator and the per-tick hazard update:
//! spawn one hazard from the shared seed, let every hazard fall, and
//! retain only those still inside the world rectangle.
use vstd::prelude::*;

use crate::config::{FALL_SPEED, X_BOUNDS, Y_BOUNDS};
use crate::geom::{abs_i64, Vec2i};
use crate::messages::ObjectMsg;

verus! {

/// A falling hazard: the tick it spawned on and where it is now.
#[derive(Clone, Copy, PartialEq, Eq, Structural, Debug)]
pub struct ObjectPos {
    pub tick: u64,
    pub pos: Vec2i,
}

/// The coordinate drawn from a seeded generator over `[lo, hi)`.
pub uninterp spec fn spawn_x_at(seed: u64, lo: i64, hi: i64) -> i64;

/// Relies on rand_chacha's ChaCha8Rng, seeded through rand's
/// SeedableRng::seed_from_u64, and rand's Rng::gen_range: ChaCha8Rng is a
/// portable, reproducible generator, so the drawn coordinate is a function
/// of the seed and range alone, and gen_range returns a value in `[lo, hi)`.
#[verifier::external_body]
fn draw_range(seed: u64, lo: i64, hi: i64) -> (r: i64)
    requires
        lo < hi,
    ensures
        r == spawn_x_at(seed, lo, hi),
        lo <= r < hi,
{
    let mut rng = <rand_chacha::ChaCha8Rng as rand::SeedableRng>::seed_from_u64(seed);
    rand::Rng::gen_range(&mut rng, lo..hi)
}

/// The x coordinate the generator spawns at for a given global seed and
/// tick: drawn over the world's width from the per-tick seed.
pub open spec fn spawn_x(seed: u64, tick: u64) -> i64 {
    spawn_x_at(seed ^ tick, (-X_BOUNDS) as i64, X_BOUNDS)
}

/// The hazard the generator spawns on `tick`: its x drawn from the
/// per-tick seed, its y starting at the top of the world.
pub open spec fn spawn_hazard(seed: u64, tick: u64) -> ObjectPos {
    ObjectPos { tick, pos: Vec2i { x: spawn_x(seed, tick), y: Y_BOUNDS } }
}

/// Ticks divisible by five spawn a scoring hazard; the rest spawn a
/// damaging one.
pub open spec fn is_bolt_tick(tick: u64) -> bool {
    tick % 5 == 0
}

/// One hazard after falling one tick.
pub open spec fn fall(h: ObjectPos) -> ObjectPos {
    ObjectPos { tick: h.tick, pos: Vec2i { x: h.pos.x, y: (h.pos.y - FALL_SPEED) as i64 } }
}

/// A hazard list after every member falls one tick, keeping only those
/// still inside the world.
pub open spec fn fall_retained(s: Seq<ObjectPos>) -> Seq<ObjectPos>
    decreases s.len(),
{
    if s.len() == 0 {
        Seq::empty()
    } else {
        let rest = fall_retained(s.drop_last());
        let h = fall(s.last());
        if h.pos.in_bounds() {
            rest.push(h)
        } else {
            rest
        }
    }
}

/// A hazard list after one full generator tick: the spawned hazard (if
/// this kind spawns on `tick`) appended, then everything falls and
/// out-of-bounds hazards are dropped.
pub open spec fn hazard_step(s: Seq<ObjectPos>, seed: u64, tick: u64, spawning: bool) -> Seq<
    ObjectPos,
> {
    if spawning {
        fall_retained(s.push(spawn_hazard(seed, tick)))
    } else {
        fall_retained(s)
    }
}

/// Every hazard in a list lies inside the world rectangle.
pub open spec fn all_in_bounds(s: Seq<ObjectPos>) -> bool {
    forall|i: int| 0 <= i < s.len() ==> (#[trigger] s[i]).pos.in_bounds()
}

/// Law: whatever list a tick starts from, every hazard it retains lies
/// inside the world rectangle.
pub proof fn lemma_fall_retained_in_bounds(s: Seq<ObjectPos>)
    ensures
        all_in_bounds(fall_retained(s)),
    decreases s.len(),
{
    if s.len() == 0 {
    } else {
        lemma_fall_retained_in_bounds(s.drop_last());
    }
}

/// Law: the generator is deterministic. The spawned position is a
/// function of the seed and tick alone, the kind a function of the
/// tick alone, so two runs of the hazard tick from equal lists, seeds
/// and ticks agree on every retained hazard.
pub proof fn lemma_hazard_step_deterministic(
    s: Seq<ObjectPos>,
    seed: u64,
    tick: u64,
    spawning: bool,
    r1: Seq<ObjectPos>,
    r2: Seq<ObjectPos>,
)
    requires
        r1 == hazard_step(s, seed, tick, spawning),
        r2 == hazard_step(s, seed, tick, spawning),
    ensures
        r1 == r2,
{
}

/// Advance one hazard list a tick: push the spawned hazard if any, let
/// every hazard fall, and drop those outside the world.
pub(crate) fn advance_hazards(list: &mut Vec<ObjectPos>, spawn: Option<ObjectPos>)
    requires
        all_in_bounds(old(list)@),
        spawn matches Some(h) ==> h.pos.in_bounds(),
    ensures
        spawn matches Some(h) ==> final(list)@ == fall_retained(old(list)@.push(h)),
        spawn is None ==> final(list)@ == fall_retained(old(list)@),
        all_in_bounds(final(list)@),
{
    let ghost s0 = list@;
    match spawn {
        Some(h) => list.push(h),
        None => (),
    }
    let ghost s_all = list@;
    let mut out: Vec<ObjectPos> = Vec::new();
    let mut i: usize = 0;
    while i < list.len()
        invariant
            i <= list@.len(),
            list@ == s_all,
            out@ == fall_retained(s_all.take(i as int)),
            all_in_bounds(out@),
            spawn matches Some(h) ==> s_all == s0.push(h),
            spawn is None ==> s_all == s0,
            all_in_bounds(s_all),
        decreases list@.len() - i,
    {
        let h = list[i];
        proof {
            assert(h.pos.in_bounds());
        }
        let h2 = ObjectPos { tick: h.tick, pos: Vec2i { x: h.pos.x, y: h.pos.y - FALL_SPEED } };
        if abs_i64(h2.pos.x) <= X_BOUNDS && abs_i64(h2.pos.y) <= Y_BOUNDS {
            out.push(h2);
        }
        proof {
            assert(s_all.take(i + 1).drop_last() =~= s_all.take(i as int));
            assert(s_all.take(i + 1).last() == s_all[i as int]);
            assert(h2 == fall(s_all[i as int]));
        }
        i = i + 1;
    }
    proof {
        assert(s_all.take(s_all.len() as int) =~= s_all);
    }
    *list = out;
}

/// Draw the hazard the generator spawns on this tick.
pub(crate) fn make_spawn(seed: u64, tick: u64) -> (h: ObjectPos)
    ensures
        h == spawn_hazard(seed, tick),
        h.pos.in_bounds(),
{
    let x = draw_range(seed ^ tick, -X_BOUNDS, X_BOUNDS);
    ObjectPos { tick, pos: Vec2i { x, y: Y_BOUNDS } }
}

/// The shared hazard field: the damaging and scoring hazards alive now,
/// and the global seed both kinds are generated from.
pub struct Objects {
    pub rain_pos: Vec<ObjectPos>,
    pub bolt_pos: Vec<ObjectPos>,
    pub rng_seed: u64,
}

impl Objects {
    /// Both hazard lists lie inside the world rectangle.
    pub open spec fn wf(self) -> bool {
        all_in_bounds(self.rain_pos@) && all_in_bounds(self.bolt_pos@)
    }

    pub fn new(rng_seed: u64) -> (o: Objects)
        ensures
            o.rain_pos@ == Seq::<ObjectPos>::empty(),
            o.bolt_pos@ == Seq::<ObjectPos>::empty(),
            o.rng_seed == rng_seed,
            o.wf(),
    {
        let o = Objects { rain_pos: Vec::new(), bolt_pos: Vec::new(), rng_seed };
        proof {
            assert(o.rain_pos@ =~= Seq::<ObjectPos>::empty());
            assert(o.bolt_pos@ =~= Seq::<ObjectPos>::empty());
        }
        o
    }

    /// Advance the damaging hazards one tick: ticks that are not bolt
    /// ticks spawn one at the generator's position, everything falls,
    /// and hazards leaving the world are dropped.
    pub fn move_rain(&mut self, tick: u64)
        requires
            old(self).wf(),
        ensures
            final(self).rain_pos@ == hazard_step(
                old(self).rain_pos@,
                old(self).rng_seed,
                tick,
                !is_bolt_tick(tick),
            ),
            final(self).bolt_pos == old(self).bolt_pos,
            final(self).rng_seed == old(self).rng_seed,
            final(self).wf(),
            !is_bolt_tick(tick) ==> spawn_hazard(old(self).rng_seed, tick).pos.in_bounds(),
    {
        if tick % 5 != 0 {
            let x = draw_range(self.rng_seed ^ tick, -X_BOUNDS, X_BOUNDS);
            let h = ObjectPos { tick, pos: Vec2i { x, y: Y_BOUNDS } };
            proof {
                assert(h == spawn_hazard(self.rng_seed, tick));
            }
            advance_hazards(&mut self.rain_pos, Some(h));
        } else {
            advance_hazards(&mut self.rain_pos, None);
        }
    }

    /// Advance the scoring hazards one tick: bolt ticks spawn one at
    /// the generator's position, everything falls, and hazards leaving
    /// the world are dropped.
    pub fn move_bolts(&mut self, tick: u64)
        requires
            old(self).wf(),
        ensures
            final(self).bolt_pos@ == hazard_step(
                old(self).bolt_pos@,
                old(self).rng_seed,
                tick,
                is_bolt_tick(tick),
            ),
            final(self).rain_pos == old(self).rain_pos,
            final(self).rng_seed == old(self).rng_seed,
            final(self).wf(),
            is_bolt_tick(tick) ==> spawn_hazard(old(self).rng_seed, tick).pos.in_bounds(),
    {
        if tick % 5 == 0 {
            let x = draw_range(self.rng_seed ^ tick, -X_BOUNDS, X_BOUNDS);
            let h = ObjectPos { tick, pos: Vec2i { x, y: Y_BOUNDS } };
            proof {
                assert(h == spawn_hazard(self.rng_seed, tick));
            }
            advance_hazards(&mut self.bolt_pos, Some(h));
        } else {
            advance_hazards(&mut self.bolt_pos, None);
        }
    }

    /// Snapshot the live hazards for the shared bootstrap message.
    pub fn update_global_objects(&self) -> (m: ObjectMsg)
        ensures
            m.rain_pos@.len() == self.rain_pos@.len(),
            forall|i: int|
                0 <= i < self.rain_pos@.len() ==> #[trigger] m.rain_pos@[i] == (
                self.rain_pos@[i].tick,
                self.rain_pos@[i].pos,
                ),
            m.bolt_pos@.len() == self.bolt_pos@.len(),
            forall|i: int|
                0 <= i < self.bolt_pos@.len() ==> #[trigger] m.bolt_pos@[i] == (
                self.bolt_pos@[i].tick,
                self.bolt_pos@[i].pos,
                ),
    {
        ObjectMsg::new(snapshot_list(&self.rain_pos), snapshot_list(&self.bolt_pos))
    }
}

/// Pair each hazard's spawn tick with its position, in order.
fn snapshot_list(list: &Vec<ObjectPos>) -> (r: Vec<(u64, Vec2i)>)
    ensures
        r@.len() == list@.len(),
        forall|i: int|
            0 <= i < list@.len() ==> #[trigger] r@[i] == (list@[i].tick, list@[i].pos),
{
    let mut r: Vec<(u64, Vec2i)> = Vec::new();
    let mut i: usize = 0;
    while i < list.len()
        invariant
            i <= list@.len(),
            r@.len() == i,
            forall|k: int| 0 <= k < i ==> #[trigger] r@[k] == (list@[k].tick, list@[k].pos),
        decreases list@.len() - i,
    {
        let h = list[i];
        r.push((h.tick, h.pos));
        i = i + 1;
    }
    r
}

} // verus!
