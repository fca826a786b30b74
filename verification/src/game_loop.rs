//! The world-store player and the per-tick resolution of movement,
//! collisions, scoring and the life state machine.
use vstd::prelude::*;

use crate::collision::{misses, split_hits, struck};
use crate::config::{BOLT_REWARD, SNAPSHOT_INTERVAL, WIN_REWARD, WIN_SCORE};
use crate::geom::{clamp_spec, clamp_to_bounds, Vec2i};
use crate::hazards::{all_in_bounds, hazard_step, is_bolt_tick, ObjectPos, Objects};
use crate::messages::{Damage, NetworkMessage, NewPos, PlayerInput, PlayerState, Score};
use crate::player::{contains_tick, kept_inputs};
use crate::scores::{best_of, copy_scores, improves, record_high_score, sorted_scores, TOP_SCORES};

verus! {

/// An authoritative player record: owned by the world store, mutated
/// only during tick processing.
pub struct PlayerEntity {
    pub id: u64,
    pub name: String,
    pub pos: Vec2i,
    pub target: Vec2i,
    pub spawn_time: u64,
    pub score: usize,
    pub alive: bool,
    pub ln_address: bool,
    pub pending: Vec<PlayerInput>,
}

/// The connected players, in admission order.
pub struct Players(pub Vec<PlayerEntity>);

impl PlayerEntity {
    /// Position and target inside the world, and a live player always
    /// below the win threshold.
    pub open spec fn wf(self) -> bool {
        self.pos.in_bounds() && self.target.in_bounds() && (self.alive ==> self.score
            < WIN_SCORE)
    }

    pub fn new(id: u64, name: String, ln_address: bool, spawn_time: u64) -> (p: PlayerEntity)
        ensures
            p.id == id,
            p.name == name,
            p.ln_address == ln_address,
            p.spawn_time == spawn_time,
            p.pos == (Vec2i { x: 0, y: 0 }),
            p.target == (Vec2i { x: 0, y: 0 }),
            p.score == 0,
            p.alive,
            p.pending@ == Seq::<PlayerInput>::empty(),
            p.wf(),
    {
        let p = PlayerEntity {
            id,
            name,
            pos: Vec2i::new(0, 0),
            target: Vec2i::new(0, 0),
            spawn_time,
            score: 0,
            alive: true,
            ln_address,
            pending: Vec::new(),
        };
        proof {
            assert(p.pending@ =~= Seq::<PlayerInput>::empty());
        }
        p
    }

    /// The displacement one seek step would take this player.
    pub fn calculate_movement(&self) -> (m: Vec2i)
        requires
            self.wf(),
        ensures
            (m.x as int, m.y as int) == crate::movement::seek_delta(self.pos, self.target),
    {
        crate::movement::calculate_movement(self.pos, self.target)
    }

    /// Step toward the target; a step that would leave the world is
    /// rejected and the position stays put.
    pub fn apply_input(&mut self)
        requires
            old(self).wf(),
        ensures
            (final(self).pos.x as int, final(self).pos.y as int) == crate::movement::step_pos(
                old(self).pos,
                old(self).target,
            ),
            *final(self) == (PlayerEntity { pos: final(self).pos, ..*old(self) }),
            final(self).wf(),
    {
        let p2 = crate::movement::apply_seek(self.pos, self.target);
        self.pos = p2;
    }
}

/// Seconds elapsed between a spawn timestamp and now, both in
/// milliseconds; zero if the clock ran backwards.
pub open spec fn elapsed_secs_spec(now_ms: u64, spawn_ms: u64) -> u64 {
    if now_ms >= spawn_ms {
        ((now_ms - spawn_ms) / 1000) as u64
    } else {
        0
    }
}

pub fn elapsed_secs(now_ms: u64, spawn_ms: u64) -> (r: u64)
    ensures
        r == elapsed_secs_spec(now_ms, spawn_ms),
{
    if now_ms >= spawn_ms {
        (now_ms - spawn_ms) / 1000
    } else {
        0
    }
}

/// An outward action a tick asks of the server shell: a message for
/// every connected session, a payment order, or a best-time record.
#[derive(Clone, Debug, PartialEq)]
pub enum Effect {
    Broadcast(NetworkMessage),
    Payout { ln_address: String, amount: u64 },
    RecordHighScore { name: String, secs_alive: u64 },
}

/// An effect that broadcasts a damage message with the given fields
/// and the given high-score table.
pub open spec fn damage_event(
    e: Effect,
    id: u64,
    tick: Option<u64>,
    secs: u64,
    hs: Option<Seq<(String, u64)>>,
    pos: Vec2i,
    score: usize,
    win: bool,
) -> bool {
    &&& e matches Effect::Broadcast(NetworkMessage::DamagePlayer(d))
    &&& d.id == id
    &&& d.tick == tick
    &&& d.secs_alive == secs
    &&& match hs {
        Option::Some(h) => d.high_scores matches Some(v) && v@ == h,
        Option::None => d.high_scores is None,
    }
    &&& d.pos == pos
    &&& d.score == score
    &&& d.win == win
}

/// Sweep the damaging hazards against one player. Every overlapping
/// hazard is consumed; any hit ends the player's life, clears its
/// pending inputs, and emits one damage event per consumed hazard,
/// carrying no high-score list. A player already out of play touches
/// nothing.
pub fn resolve_rain_for(
    p: &mut PlayerEntity,
    rain: &mut Vec<ObjectPos>,
    now_ms: u64,
) -> (effects: Vec<Effect>)
    requires
        old(p).wf(),
        all_in_bounds(old(rain)@),
    ensures
        final(p).wf(),
        all_in_bounds(final(rain)@),
        !old(p).alive ==> *final(p) == *old(p) && *final(rain) == *old(rain) && effects@
            == Seq::<Effect>::empty(),
        old(p).alive ==> {
            let st = struck(old(rain)@, old(p).pos);
            &&& final(rain)@ == misses(old(rain)@, old(p).pos)
            &&& final(p).alive == (st.len() == 0)
            &&& final(p).pending@ == (if st.len() == 0 {
                old(p).pending@
            } else {
                Seq::<PlayerInput>::empty()
            })
            &&& st.len() == 0 ==> *final(p) == *old(p)
            &&& final(p).id == old(p).id
            &&& final(p).name == old(p).name
            &&& final(p).pos == old(p).pos
            &&& final(p).target == old(p).target
            &&& final(p).spawn_time == old(p).spawn_time
            &&& final(p).score == old(p).score
            &&& final(p).ln_address == old(p).ln_address
            &&& effects@.len() == st.len()
            &&& forall|i: int|
                0 <= i < st.len() ==> damage_event(
                    #[trigger] effects@[i],
                    old(p).id,
                    Some(st[i].tick),
                    elapsed_secs_spec(now_ms, old(p).spawn_time),
                    None,
                    old(p).pos,
                    old(p).score,
                    false,
                )
        },
{
    if !p.alive {
        let effects: Vec<Effect> = Vec::new();
        proof {
            assert(effects@ =~= Seq::<Effect>::empty());
        }
        return effects;
    }
    let removed = split_hits(rain, p.pos);
    if removed.len() > 0 {
        p.alive = false;
        p.pending = Vec::new();
        proof {
            assert(p.pending@ =~= Seq::<PlayerInput>::empty());
        }
    }
    let secs = elapsed_secs(now_ms, p.spawn_time);
    let mut effects: Vec<Effect> = Vec::new();
    let mut i: usize = 0;
    while i < removed.len()
        invariant
            i <= removed@.len(),
            effects@.len() == i,
            forall|k: int|
                0 <= k < i ==> damage_event(
                    #[trigger] effects@[k],
                    p.id,
                    Some(removed@[k].tick),
                    secs,
                    None,
                    p.pos,
                    p.score,
                    false,
                ),
        decreases removed@.len() - i,
    {
        let d = Damage::new(p.id, Some(removed[i].tick), secs, None, p.pos, p.score, false);
        effects.push(Effect::Broadcast(NetworkMessage::DamagePlayer(d)));
        i = i + 1;
    }
    effects
}

/// Sweep the scoring hazards against one player. Every overlapping
/// hazard is consumed; each consumed hazard scores one point and
/// announces it (with a payout order for a payable player), until the
/// win threshold ends the session: life ends, inputs clear, the score
/// resets, the run is recorded in the best-time table, and the win is
/// announced carrying the freshly updated table. A player already out
/// of play touches nothing.
pub fn resolve_bolts_for(
    p: &mut PlayerEntity,
    bolt: &mut Vec<ObjectPos>,
    now_ms: u64,
    high_scores: &mut Vec<(String, u64)>,
) -> (effects: Vec<Effect>)
    requires
        old(p).wf(),
        all_in_bounds(old(bolt)@),
        sorted_scores(old(high_scores)@),
        old(high_scores)@.len() <= TOP_SCORES,
    ensures
        final(p).wf(),
        all_in_bounds(final(bolt)@),
        sorted_scores(final(high_scores)@),
        final(high_scores)@.len() <= TOP_SCORES,
        !old(p).alive ==> *final(p) == *old(p) && *final(bolt) == *old(bolt) && effects@
            == Seq::<Effect>::empty() && *final(high_scores) == *old(high_scores),
        old(p).alive ==> {
            let st = struck(old(bolt)@, old(p).pos);
            let k = st.len() as int;
            let need = WIN_SCORE - old(p).score;
            let j = if k < need {
                k
            } else {
                need
            };
            let win = k >= need;
            let pay = if old(p).ln_address {
                1int
            } else {
                0int
            };
            let base = j + (if old(p).ln_address {
                j
            } else {
                0int
            });
            let secs = elapsed_secs_spec(now_ms, old(p).spawn_time);
            &&& final(bolt)@ == misses(old(bolt)@, old(p).pos)
            &&& !win ==> *final(high_scores) == *old(high_scores)
            &&& final(p).score as int == (if win {
                0int
            } else {
                old(p).score + j
            })
            &&& final(p).alive == !win
            &&& final(p).pending@ == (if win {
                Seq::<PlayerInput>::empty()
            } else {
                old(p).pending@
            })
            &&& final(p).id == old(p).id
            &&& final(p).name == old(p).name
            &&& final(p).pos == old(p).pos
            &&& final(p).target == old(p).target
            &&& final(p).spawn_time == old(p).spawn_time
            &&& final(p).ln_address == old(p).ln_address
            &&& effects@.len() == base + (if win {
                pay + 2
            } else {
                0int
            })
            &&& forall|i: int|
                0 <= i < j ==> #[trigger] effects@[i] == Effect::Broadcast(
                    NetworkMessage::ScoreUpdate(
                        (Score {
                            id: old(p).id,
                            score: (old(p).score + i + 1) as usize,
                            tick: st[i].tick,
                        }),
                    ),
                )
            &&& old(p).ln_address ==> forall|i: int|
                j <= i < 2 * j ==> #[trigger] effects@[i] == (Effect::Payout {
                    ln_address: old(p).name,
                    amount: BOLT_REWARD,
                })
            &&& win ==> {
                &&& old(p).ln_address ==> effects@[base] == (Effect::Payout {
                    ln_address: old(p).name,
                    amount: WIN_REWARD,
                })
                &&& effects@[base + pay] == (Effect::RecordHighScore {
                    name: old(p).name,
                    secs_alive: secs,
                })
                &&& damage_event(
                    effects@[base + pay + 1],
                    old(p).id,
                    None,
                    secs,
                    Some(final(high_scores)@),
                    old(p).pos,
                    WIN_SCORE,
                    true,
                )
                &&& forall|i: int|
                    0 <= i < final(high_scores)@.len() ==> old(high_scores)@.contains(
                        #[trigger] final(high_scores)@[i],
                    ) || (final(high_scores)@[i].1 == secs
                        && final(high_scores)@[i].0@ == old(p).name@)
                &&& !improves(best_of(old(high_scores)@, old(p).name@), secs)
                    ==> *final(high_scores) == *old(high_scores)
                &&& improves(best_of(old(high_scores)@, old(p).name@), secs) ==> (exists|i: int|
                    0 <= i < final(high_scores)@.len()
                        && (#[trigger] final(high_scores)@[i]).1 == secs
                        && final(high_scores)@[i].0@ == old(p).name@) || (forall|i: int|
                    0 <= i < final(high_scores)@.len()
                        ==> (#[trigger] final(high_scores)@[i]).1 <= secs)
            }
        },
{
    if !p.alive {
        let effects: Vec<Effect> = Vec::new();
        proof {
            assert(effects@ =~= Seq::<Effect>::empty());
        }
        return effects;
    }
    let removed = split_hits(bolt, p.pos);
    let need = WIN_SCORE - p.score;
    let j = if removed.len() < need {
        removed.len()
    } else {
        need
    };
    let win = removed.len() >= need;
    let secs = elapsed_secs(now_ms, p.spawn_time);
    let mut effects: Vec<Effect> = Vec::new();
    let mut i: usize = 0;
    while i < j
        invariant
            i <= j,
            j <= removed@.len(),
            j + p.score <= WIN_SCORE,
            effects@.len() == i,
            forall|k: int|
                0 <= k < i ==> #[trigger] effects@[k] == Effect::Broadcast(
                    NetworkMessage::ScoreUpdate(
                        (Score {
                            id: p.id,
                            score: (p.score + k + 1) as usize,
                            tick: removed@[k].tick,
                        }),
                    ),
                ),
        decreases j - i,
    {
        let s = Score::new(p.id, p.score + i + 1, removed[i].tick);
        effects.push(Effect::Broadcast(NetworkMessage::ScoreUpdate(s)));
        i = i + 1;
    }
    if p.ln_address {
        let mut i2: usize = 0;
        while i2 < j
            invariant
                i2 <= j,
                j <= removed@.len(),
                j + p.score <= WIN_SCORE,
                effects@.len() == j + i2,
                forall|k: int|
                    0 <= k < j ==> #[trigger] effects@[k] == Effect::Broadcast(
                        NetworkMessage::ScoreUpdate(
                            (Score {
                                id: p.id,
                                score: (p.score + k + 1) as usize,
                                tick: removed@[k].tick,
                            }),
                        ),
                    ),
                forall|k: int|
                    j <= k < j + i2 ==> #[trigger] effects@[k] == (Effect::Payout {
                        ln_address: p.name,
                        amount: BOLT_REWARD,
                    }),
            decreases j - i2,
        {
            effects.push(Effect::Payout { ln_address: p.name.clone(), amount: BOLT_REWARD });
            i2 = i2 + 1;
        }
    }
    if win {
        if p.ln_address {
            effects.push(Effect::Payout { ln_address: p.name.clone(), amount: WIN_REWARD });
        }
        effects.push(Effect::RecordHighScore { name: p.name.clone(), secs_alive: secs });
        record_high_score(high_scores, &p.name, secs);
        let d = Damage::new(
            p.id,
            None,
            secs,
            Some(copy_scores(high_scores)),
            p.pos,
            WIN_SCORE,
            true,
        );
        effects.push(Effect::Broadcast(NetworkMessage::DamagePlayer(d)));
        p.score = 0;
        p.alive = false;
        p.pending = Vec::new();
        proof {
            assert(p.pending@ =~= Seq::<PlayerInput>::empty());
        }
    } else {
        p.score = p.score + j;
    }
    effects
}

/// What a collision sweep reads of one roster member, in sweep order:
/// id, name, position, target, spawn time, score, life, payability,
/// and the queued inputs.
pub type SweepRec = (u64, String, Vec2i, Vec2i, u64, usize, bool, bool, Seq<PlayerInput>);

/// The sweep record of a player.
pub open spec fn rec_of(p: PlayerEntity) -> SweepRec {
    (p.id, p.name, p.pos, p.target, p.spawn_time, p.score, p.alive, p.ln_address, p.pending@)
}

/// A record a sweep may start from: a live member is always below the
/// win threshold.
pub open spec fn rec_wf(r: SweepRec) -> bool {
    r.6 ==> r.5 < WIN_SCORE
}

/// The damaging-hazard list after the first `i` members of the roster
/// swept it: each live member consumes every hazard it overlaps.
pub open spec fn rain_after(rain0: Seq<ObjectPos>, rs: Seq<SweepRec>, i: int) -> Seq<ObjectPos>
    decreases i,
{
    if i <= 0 {
        rain0
    } else {
        let prev = rain_after(rain0, rs, i - 1);
        if rs[i - 1].6 {
            misses(prev, rs[i - 1].2)
        } else {
            prev
        }
    }
}

/// Whether member `i` still lives when the scoring sweep reaches it:
/// alive and missed by every damaging hazard its own sweep found.
pub open spec fn alive_at_bolts(rain0: Seq<ObjectPos>, rs: Seq<SweepRec>, i: int) -> bool {
    rs[i].6 && struck(rain_after(rain0, rs, i), rs[i].2).len() == 0
}

/// The scoring-hazard list after the first `i` members swept it.
pub open spec fn bolt_after(
    bolt0: Seq<ObjectPos>,
    rain0: Seq<ObjectPos>,
    rs: Seq<SweepRec>,
    i: int,
) -> Seq<ObjectPos>
    decreases i,
{
    if i <= 0 {
        bolt0
    } else {
        let prev = bolt_after(bolt0, rain0, rs, i - 1);
        if alive_at_bolts(rain0, rs, i - 1) {
            misses(prev, rs[i - 1].2)
        } else {
            prev
        }
    }
}

/// Exactly how one collision pass transforms a roster member, given
/// the hazard lists as its sweep finds them: any damaging hit ends its
/// life and clears its queue; otherwise each overlapped scoring hazard
/// scores until the win threshold ends the session.
pub open spec fn swept_rel(
    r: SweepRec,
    p1: PlayerEntity,
    rain_i: Seq<ObjectPos>,
    bolt_i: Seq<ObjectPos>,
) -> bool {
    let rain_hit = struck(rain_i, r.2).len() > 0;
    let in_bolts = r.6 && !rain_hit;
    let k = struck(bolt_i, r.2).len() as int;
    let need = WIN_SCORE - r.5;
    let j = if k < need {
        k
    } else {
        need
    };
    let win = in_bolts && k >= need;
    &&& p1.id == r.0
    &&& p1.name == r.1
    &&& p1.pos == r.2
    &&& p1.target == r.3
    &&& p1.spawn_time == r.4
    &&& p1.ln_address == r.7
    &&& p1.alive == (in_bolts && !win)
    &&& p1.score as int == (if !in_bolts {
        r.5 as int
    } else if win {
        0int
    } else {
        r.5 + j
    })
    &&& p1.pending@ == (if r.6 && (rain_hit || win) {
        Seq::<PlayerInput>::empty()
    } else {
        r.8
    })
}

/// How many effects one member's sweep emits: one damage event per
/// damaging hazard hit, else score, payout, and win events.
pub open spec fn fx_count_one(r: SweepRec, rain_i: Seq<ObjectPos>, bolt_i: Seq<ObjectPos>) -> int {
    if !r.6 {
        0
    } else {
        let cr = struck(rain_i, r.2).len() as int;
        if cr > 0 {
            cr
        } else {
            let k = struck(bolt_i, r.2).len() as int;
            let need = WIN_SCORE - r.5;
            let j = if k < need {
                k
            } else {
                need
            };
            let win = k >= need;
            let pay = if r.7 {
                1int
            } else {
                0int
            };
            j + (if r.7 {
                j
            } else {
                0int
            }) + (if win {
                pay + 2
            } else {
                0int
            })
        }
    }
}

/// A win-variant damage broadcast carrying a high-score table.
pub open spec fn win_damage_event(e: Effect, id: u64, secs: u64, pos: Vec2i) -> bool {
    &&& e matches Effect::Broadcast(NetworkMessage::DamagePlayer(d))
    &&& d.id == id
    &&& d.tick is None
    &&& d.secs_alive == secs
    &&& d.high_scores is Some
    &&& d.pos == pos
    &&& d.score == WIN_SCORE
    &&& d.win
}

/// The effects one member's sweep emits, standing at offset `off` of
/// the pass's effect sequence.
#[verifier::opaque]
pub open spec fn fx_seg_ok(
    fx: Seq<Effect>,
    off: int,
    r: SweepRec,
    rain_i: Seq<ObjectPos>,
    bolt_i: Seq<ObjectPos>,
    now_ms: u64,
) -> bool {
    let secs = elapsed_secs_spec(now_ms, r.4);
    let st_r = struck(rain_i, r.2);
    let cr = st_r.len() as int;
    let st_b = struck(bolt_i, r.2);
    let k = st_b.len() as int;
    let need = WIN_SCORE - r.5;
    let j = if k < need {
        k
    } else {
        need
    };
    let win = k >= need;
    let pay = if r.7 {
        1int
    } else {
        0int
    };
    let base = off + j + (if r.7 {
        j
    } else {
        0int
    });
    &&& r.6 && cr > 0 ==> forall|e: int|
        off <= e < off + cr ==> damage_event(
            #[trigger] fx[e],
            r.0,
            Some(st_r[e - off].tick),
            secs,
            None,
            r.2,
            r.5,
            false,
        )
    &&& r.6 && cr == 0 ==> {
        &&& forall|e: int|
            off <= e < off + j ==> #[trigger] fx[e] == Effect::Broadcast(
                NetworkMessage::ScoreUpdate(
                    (Score { id: r.0, score: (r.5 + (e - off) + 1) as usize, tick: st_b[e - off].tick }),
                ),
            )
        &&& r.7 ==> forall|e: int|
            off + j <= e < off + 2 * j ==> #[trigger] fx[e] == (Effect::Payout {
                ln_address: r.1,
                amount: BOLT_REWARD,
            })
        &&& win ==> {
            &&& r.7 ==> fx[base] == (Effect::Payout { ln_address: r.1, amount: WIN_REWARD })
            &&& fx[base + pay] == (Effect::RecordHighScore { name: r.1, secs_alive: secs })
            &&& win_damage_event(fx[base + pay + 1], r.0, secs, r.2)
        }
    }
}

/// The total count of effects the first `i` sweeps emit.
pub open spec fn fx_total(
    rs: Seq<SweepRec>,
    rain0: Seq<ObjectPos>,
    bolt0: Seq<ObjectPos>,
    i: int,
) -> int
    decreases i,
{
    if i <= 0 {
        0
    } else {
        fx_total(rs, rain0, bolt0, i - 1) + fx_count_one(
            rs[i - 1],
            rain_after(rain0, rs, i - 1),
            bolt_after(bolt0, rain0, rs, i - 1),
        )
    }
}

/// A sweep emits no negative number of effects.
pub proof fn lemma_fx_count_nonneg(r: SweepRec, rain_i: Seq<ObjectPos>, bolt_i: Seq<ObjectPos>)
    requires
        rec_wf(r),
    ensures
        fx_count_one(r, rain_i, bolt_i) >= 0,
{
}

/// Effect offsets only grow along the roster.
pub proof fn lemma_fx_total_mono(
    rs: Seq<SweepRec>,
    rain0: Seq<ObjectPos>,
    bolt0: Seq<ObjectPos>,
    a: int,
    b: int,
)
    requires
        0 <= a <= b,
        forall|i: int| 0 <= i < rs.len() ==> rec_wf(#[trigger] rs[i]),
        b <= rs.len(),
    ensures
        fx_total(rs, rain0, bolt0, a) <= fx_total(rs, rain0, bolt0, b),
    decreases b - a,
{
    if a < b {
        lemma_fx_total_mono(rs, rain0, bolt0, a, b - 1);
        lemma_fx_count_nonneg(
            rs[b - 1],
            rain_after(rain0, rs, b - 1),
            bolt_after(bolt0, rain0, rs, b - 1),
        );
    }
}

/// A member's effect segment is untouched by anything appended after
/// it.
pub proof fn lemma_fx_seg_extend(
    fx1: Seq<Effect>,
    fx2: Seq<Effect>,
    off: int,
    r: SweepRec,
    rain_i: Seq<ObjectPos>,
    bolt_i: Seq<ObjectPos>,
    now_ms: u64,
)
    requires
        fx_seg_ok(fx1, off, r, rain_i, bolt_i, now_ms),
        0 <= off,
        off + fx_count_one(r, rain_i, bolt_i) <= fx1.len(),
        fx1.len() <= fx2.len(),
        forall|e: int| 0 <= e < fx1.len() ==> #[trigger] fx2[e] == fx1[e],
        rec_wf(r),
    ensures
        fx_seg_ok(fx2, off, r, rain_i, bolt_i, now_ms),
{
    reveal(fx_seg_ok);
    let st_r = struck(rain_i, r.2);
    let cr = st_r.len() as int;
    if r.6 && cr > 0 {
        assert forall|e: int| off <= e < off + cr implies damage_event(
            #[trigger] fx2[e],
            r.0,
            Some(st_r[e - off].tick),
            elapsed_secs_spec(now_ms, r.4),
            None,
            r.2,
            r.5,
            false,
        ) by {
            assert(fx2[e] == fx1[e]);
        }
    }
    if r.6 && cr == 0 {
        let st_b = struck(bolt_i, r.2);
        let k = st_b.len() as int;
        let need = WIN_SCORE - r.5;
        let j = if k < need {
            k
        } else {
            need
        };
        assert forall|e: int| off <= e < off + j implies #[trigger] fx2[e] == Effect::Broadcast(
            NetworkMessage::ScoreUpdate(
                (Score { id: r.0, score: (r.5 + (e - off) + 1) as usize, tick: st_b[e - off].tick }),
            ),
        ) by {
            assert(fx2[e] == fx1[e]);
        }
        if r.7 {
            assert forall|e: int| off + j <= e < off + 2 * j implies #[trigger] fx2[e] == (
            Effect::Payout { ln_address: r.1, amount: BOLT_REWARD }) by {
                assert(fx2[e] == fx1[e]);
            }
        }
    }
}

/// Every completed effect segment is untouched by later appends.
pub proof fn lemma_fx_all_extend(
    fx1: Seq<Effect>,
    fx2: Seq<Effect>,
    rs: Seq<SweepRec>,
    rain0: Seq<ObjectPos>,
    bolt0: Seq<ObjectPos>,
    upto: int,
    now_ms: u64,
)
    requires
        0 <= upto <= rs.len(),
        forall|m: int| 0 <= m < rs.len() ==> rec_wf(#[trigger] rs[m]),
        forall|k: int|
            0 <= k < upto ==> fx_seg_ok(
                fx1,
                fx_total(rs, rain0, bolt0, k),
                #[trigger] rs[k],
                rain_after(rain0, rs, k),
                bolt_after(bolt0, rain0, rs, k),
                now_ms,
            ),
        fx_total(rs, rain0, bolt0, upto) <= fx1.len(),
        fx1.len() <= fx2.len(),
        forall|e: int| 0 <= e < fx1.len() ==> #[trigger] fx2[e] == fx1[e],
    ensures
        forall|k: int|
            0 <= k < upto ==> fx_seg_ok(
                fx2,
                fx_total(rs, rain0, bolt0, k),
                #[trigger] rs[k],
                rain_after(rain0, rs, k),
                bolt_after(bolt0, rain0, rs, k),
                now_ms,
            ),
{
    assert forall|k: int| 0 <= k < upto implies fx_seg_ok(
        fx2,
        fx_total(rs, rain0, bolt0, k),
        #[trigger] rs[k],
        rain_after(rain0, rs, k),
        bolt_after(bolt0, rain0, rs, k),
        now_ms,
    ) by {
        lemma_fx_total_mono(rs, rain0, bolt0, 0, k);
        lemma_fx_total_mono(rs, rain0, bolt0, k + 1, upto);
        lemma_fx_count_nonneg(rs[k], rain_after(rain0, rs, k), bolt_after(bolt0, rain0, rs, k));
        assert(fx_total(rs, rain0, bolt0, k + 1) == fx_total(rs, rain0, bolt0, k) + fx_count_one(
            rs[k],
            rain_after(rain0, rs, k),
            bolt_after(bolt0, rain0, rs, k),
        ));
        lemma_fx_seg_extend(
            fx1,
            fx2,
            fx_total(rs, rain0, bolt0, k),
            rs[k],
            rain_after(rain0, rs, k),
            bolt_after(bolt0, rain0, rs, k),
            now_ms,
        );
    }
}

/// How one collision pass may change a player: identity, position and
/// timing stand; life can only be lost; score only grows while the
/// player stays alive; a lost life clears the input queue; a player
/// already out of play is untouched.
pub open spec fn collided(p0: PlayerEntity, p1: PlayerEntity) -> bool {
    &&& p1.wf()
    &&& p1.id == p0.id
    &&& p1.name == p0.name
    &&& p1.pos == p0.pos
    &&& p1.target == p0.target
    &&& p1.spawn_time == p0.spawn_time
    &&& p1.ln_address == p0.ln_address
    &&& !p0.alive ==> p1 == p0
    &&& p1.alive ==> p0.alive && p1.score >= p0.score && p1.pending@ == p0.pending@
    &&& p0.alive && !p1.alive ==> p1.pending@ == Seq::<PlayerInput>::empty()
}

/// Sweep both hazard kinds against one player, appending its effect
/// segment: the damaging sweep first, then the scoring sweep while it
/// still lives.
fn sweep_one(
    rain: &mut Vec<ObjectPos>,
    bolt: &mut Vec<ObjectPos>,
    p: &mut PlayerEntity,
    effects: &mut Vec<Effect>,
    high_scores: &mut Vec<(String, u64)>,
    now_ms: u64,
    Ghost(r): Ghost<SweepRec>,
)
    requires
        old(p).wf(),
        all_in_bounds(old(rain)@),
        all_in_bounds(old(bolt)@),
        sorted_scores(old(high_scores)@),
        old(high_scores)@.len() <= TOP_SCORES,
        r == rec_of(*old(p)),
    ensures
        final(p).wf(),
        all_in_bounds(final(rain)@),
        all_in_bounds(final(bolt)@),
        sorted_scores(final(high_scores)@),
        final(high_scores)@.len() <= TOP_SCORES,
        collided(*old(p), *final(p)),
        final(rain)@ == (if r.6 {
            misses(old(rain)@, r.2)
        } else {
            old(rain)@
        }),
        final(bolt)@ == (if r.6 && struck(old(rain)@, r.2).len() == 0 {
            misses(old(bolt)@, r.2)
        } else {
            old(bolt)@
        }),
        swept_rel(r, *final(p), old(rain)@, old(bolt)@),
        final(effects)@.len() == old(effects)@.len() + fx_count_one(r, old(rain)@, old(bolt)@),
        forall|e: int|
            0 <= e < old(effects)@.len() ==> #[trigger] final(effects)@[e] == old(effects)@[e],
        fx_seg_ok(final(effects)@, old(effects)@.len() as int, r, old(rain)@, old(bolt)@, now_ms),
{
    let ghost pre_fx = effects@;
    let ghost rain_seen = rain@;
    let ghost bolt_seen = bolt@;
    let mut rain_fx = resolve_rain_for(p, rain, now_ms);
    let ghost rfx = rain_fx@;
    effects.append(&mut rain_fx);
    let mut bolt_fx = resolve_bolts_for(p, bolt, now_ms, high_scores);
    let ghost bfx = bolt_fx@;
    effects.append(&mut bolt_fx);
    proof {
        reveal(fx_seg_ok);
        let off = pre_fx.len() as int;
        assert(effects@ == pre_fx + rfx + bfx);
        assert forall|e: int| 0 <= e < pre_fx.len() implies #[trigger] effects@[e]
            == pre_fx[e] by {}
        assert forall|e: int|
            off <= e < off + rfx.len() implies #[trigger] effects@[e] == rfx[e - off] by {}
        assert forall|e: int|
            off + rfx.len() <= e < effects@.len() implies #[trigger] effects@[e] == bfx[e - off
            - rfx.len()] by {}
        if r.6 {
            let st_r = struck(rain_seen, r.2);
            if st_r.len() > 0 {
                assert forall|e: int| off <= e < off + st_r.len() implies damage_event(
                    #[trigger] effects@[e],
                    r.0,
                    Some(st_r[e - off].tick),
                    elapsed_secs_spec(now_ms, r.4),
                    None,
                    r.2,
                    r.5,
                    false,
                ) by {
                    assert(effects@[e] == rfx[e - off]);
                }
            } else {
                let st_b = struck(bolt_seen, r.2);
                let k = st_b.len() as int;
                let need = WIN_SCORE - r.5;
                let j = if k < need {
                    k
                } else {
                    need
                };
                assert forall|e: int|
                    off <= e < off + j implies #[trigger] effects@[e] == Effect::Broadcast(
                    NetworkMessage::ScoreUpdate(
                        (Score {
                            id: r.0,
                            score: (r.5 + (e - off) + 1) as usize,
                            tick: st_b[e - off].tick,
                        }),
                    ),
                ) by {
                    assert(effects@[e] == bfx[e - off]);
                }
                if r.7 {
                    assert forall|e: int|
                        off + j <= e < off + 2 * j implies #[trigger] effects@[e] == (
                    Effect::Payout { ln_address: r.1, amount: BOLT_REWARD }) by {
                        assert(effects@[e] == bfx[e - off]);
                    }
                }
            }
        }
        assert(fx_seg_ok(effects@, off, r, rain_seen, bolt_seen, now_ms));
    }
}

impl Objects {
    /// One collision resolution pass over every player, in roster
    /// order: damaging hazards first, then scoring ones while the
    /// player still lives. Hazards are consumed from the shared field
    /// in the same order, so a hazard goes to the first player that
    /// overlaps it; the hazard lists, every player's new state, and
    /// the emitted effect segments are all pinned by the sweep folds.
    #[verifier::rlimit(100)]
    pub fn collision(
        &mut self,
        players: &mut Players,
        now_ms: u64,
        high_scores: &mut Vec<(String, u64)>,
    ) -> (effects: Vec<Effect>)
        requires
            old(self).wf(),
            sorted_scores(old(high_scores)@),
            old(high_scores)@.len() <= TOP_SCORES,
            forall|i: int|
                0 <= i < old(players).0@.len() ==> (#[trigger] old(players).0@[i]).wf(),
        ensures
            final(self).rng_seed == old(self).rng_seed,
            final(self).wf(),
            sorted_scores(final(high_scores)@),
            final(high_scores)@.len() <= TOP_SCORES,
            final(players).0@.len() == old(players).0@.len(),
            forall|i: int|
                0 <= i < old(players).0@.len() ==> collided(
                    old(players).0@[i],
                    #[trigger] final(players).0@[i],
                ),
            ({
                let rs = old(players).0@.map_values(|p: PlayerEntity| rec_of(p));
                let rain0 = old(self).rain_pos@;
                let bolt0 = old(self).bolt_pos@;
                let n = rs.len() as int;
                &&& final(self).rain_pos@ == rain_after(rain0, rs, n)
                &&& final(self).bolt_pos@ == bolt_after(bolt0, rain0, rs, n)
                &&& effects@.len() == fx_total(rs, rain0, bolt0, n)
                &&& forall|i: int|
                    0 <= i < n ==> swept_rel(
                        rs[i],
                        #[trigger] final(players).0@[i],
                        rain_after(rain0, rs, i),
                        bolt_after(bolt0, rain0, rs, i),
                    )
                &&& forall|i: int|
                    0 <= i < n ==> fx_seg_ok(
                        effects@,
                        fx_total(rs, rain0, bolt0, i),
                        #[trigger] rs[i],
                        rain_after(rain0, rs, i),
                        bolt_after(bolt0, rain0, rs, i),
                        now_ms,
                    )
            }),
    {
        let ghost ps0 = players.0@;
        let ghost rs = ps0.map_values(|p: PlayerEntity| rec_of(p));
        let ghost rain0 = self.rain_pos@;
        let ghost bolt0 = self.bolt_pos@;
        proof {
            assert forall|m: int| 0 <= m < rs.len() implies rec_wf(#[trigger] rs[m]) by {
                assert(rs[m] == rec_of(ps0[m]));
            }
        }
        let total = players.0.len();
        let mut out: Vec<PlayerEntity> = Vec::new();
        let mut effects: Vec<Effect> = Vec::new();
        let mut i: usize = 0;
        while i < total
            invariant
                total == ps0.len(),
                i <= ps0.len(),
                rs == ps0.map_values(|p: PlayerEntity| rec_of(p)),
                forall|m: int| 0 <= m < rs.len() ==> rec_wf(#[trigger] rs[m]),
                players.0@ == ps0.skip(i as int),
                out@.len() == i,
                forall|k: int| 0 <= k < ps0.len() ==> (#[trigger] ps0[k]).wf(),
                forall|k: int| 0 <= k < i ==> collided(ps0[k], #[trigger] out@[k]),
                self.wf(),
                self.rng_seed == old(self).rng_seed,
                self.rain_pos@ == rain_after(rain0, rs, i as int),
                self.bolt_pos@ == bolt_after(bolt0, rain0, rs, i as int),
                effects@.len() == fx_total(rs, rain0, bolt0, i as int),
                forall|k: int|
                    0 <= k < i ==> swept_rel(
                        rs[k],
                        #[trigger] out@[k],
                        rain_after(rain0, rs, k),
                        bolt_after(bolt0, rain0, rs, k),
                    ),
                forall|k: int|
                    0 <= k < i ==> fx_seg_ok(
                        effects@,
                        fx_total(rs, rain0, bolt0, k),
                        #[trigger] rs[k],
                        rain_after(rain0, rs, k),
                        bolt_after(bolt0, rain0, rs, k),
                        now_ms,
                    ),
                sorted_scores(high_scores@),
                high_scores@.len() <= TOP_SCORES,
            decreases ps0.len() - i,
        {
            let ghost pre_fx = effects@;
            let mut p = players.0.remove(0);
            proof {
                assert(ps0.skip(i as int)[0] == ps0[i as int]);
                assert(ps0.skip(i as int).remove(0) =~= ps0.skip(i + 1));
                assert(rs[i as int] == rec_of(ps0[i as int]));
            }
            sweep_one(
                &mut self.rain_pos,
                &mut self.bolt_pos,
                &mut p,
                &mut effects,
                high_scores,
                now_ms,
                Ghost(rs[i as int]),
            );
            proof {
                assert(self.rain_pos@ == rain_after(rain0, rs, i + 1));
                assert(self.bolt_pos@ == bolt_after(bolt0, rain0, rs, i + 1));
                assert(effects@.len() == fx_total(rs, rain0, bolt0, i + 1));
                lemma_fx_all_extend(pre_fx, effects@, rs, rain0, bolt0, i as int, now_ms);
            }
            out.push(p);
            i = i + 1;
        }
        players.0 = out;
        effects
    }
}

/// The players of a roster still alive, in order.
pub open spec fn alive_only(s: Seq<PlayerEntity>) -> Seq<PlayerEntity>
    decreases s.len(),
{
    if s.len() == 0 {
        Seq::empty()
    } else {
        let rest = alive_only(s.drop_last());
        if s.last().alive {
            rest.push(s.last())
        } else {
            rest
        }
    }
}

/// Drop from the roster every player no longer alive.
fn retain_alive(v: &mut Vec<PlayerEntity>)
    requires
        forall|i: int| 0 <= i < old(v)@.len() ==> (#[trigger] old(v)@[i]).wf(),
    ensures
        final(v)@ == alive_only(old(v)@),
        forall|i: int| 0 <= i < final(v)@.len() ==> (#[trigger] final(v)@[i]).wf(),
        forall|i: int| 0 <= i < final(v)@.len() ==> (#[trigger] final(v)@[i]).alive,
{
    let ghost s0 = v@;
    let total = v.len();
    let mut out: Vec<PlayerEntity> = Vec::new();
    let mut i: usize = 0;
    while i < total
        invariant
            total == s0.len(),
            i <= s0.len(),
            v@ == s0.skip(i as int),
            out@ == alive_only(s0.take(i as int)),
            forall|k: int| 0 <= k < s0.len() ==> (#[trigger] s0[k]).wf(),
            forall|k: int| 0 <= k < out@.len() ==> (#[trigger] out@[k]).wf(),
            forall|k: int| 0 <= k < out@.len() ==> (#[trigger] out@[k]).alive,
        decreases s0.len() - i,
    {
        let p = v.remove(0);
        proof {
            assert(s0.skip(i as int)[0] == s0[i as int]);
            assert(s0.skip(i as int).remove(0) =~= s0.skip(i + 1));
            assert(s0.take(i + 1).drop_last() =~= s0.take(i as int));
            assert(s0.take(i + 1).last() == s0[i as int]);
        }
        if p.alive {
            out.push(p);
        }
        i = i + 1;
    }
    proof {
        assert(s0.take(s0.len() as int) =~= s0);
    }
    *v = out;
}

/// The target of the last queued input already due at `t`, clamped
/// into the world; none if no queued input is due.
pub open spec fn last_due_target(q: Seq<PlayerInput>, t: u64) -> Option<Vec2i>
    decreases q.len(),
{
    if q.len() == 0 {
        None
    } else if q.last().tick <= t {
        Some(clamp_spec(q.last().target))
    } else {
        last_due_target(q.drop_last(), t)
    }
}

/// Consume every queued input already due at the server tick, keeping
/// only inputs for ticks still to come, and apply the latest due
/// target. Reports whether any input was consumed.
pub fn drain_due_inputs(p: &mut PlayerEntity, server_tick: u64) -> (consumed: bool)
    requires
        old(p).wf(),
    ensures
        final(p).wf(),
        final(p).pending@ == kept_inputs(old(p).pending@, server_tick),
        forall|k: int|
            0 <= k < final(p).pending@.len() ==> (#[trigger] final(p).pending@[k]).tick
                > server_tick,
        final(p).target == (match last_due_target(old(p).pending@, server_tick) {
            Option::Some(tg) => tg,
            Option::None => old(p).target,
        }),
        consumed == (last_due_target(old(p).pending@, server_tick) is Some),
        final(p).id == old(p).id,
        final(p).name == old(p).name,
        final(p).pos == old(p).pos,
        final(p).spawn_time == old(p).spawn_time,
        final(p).score == old(p).score,
        final(p).alive == old(p).alive,
        final(p).ln_address == old(p).ln_address,
{
    let ghost q0 = p.pending@;
    let mut kept: Vec<PlayerInput> = Vec::new();
    let mut chosen: Option<Vec2i> = None;
    let mut i: usize = 0;
    while i < p.pending.len()
        invariant
            i <= q0.len(),
            p.pending@ == q0,
            kept@ == kept_inputs(q0.take(i as int), server_tick),
            forall|k: int| 0 <= k < kept@.len() ==> (#[trigger] kept@[k]).tick > server_tick,
            chosen == last_due_target(q0.take(i as int), server_tick),
            chosen matches Some(tg) ==> tg.in_bounds(),
        decreases q0.len() - i,
    {
        let inp = p.pending[i];
        proof {
            assert(q0.take(i + 1).drop_last() =~= q0.take(i as int));
            assert(q0.take(i + 1).last() == q0[i as int]);
        }
        if inp.tick <= server_tick {
            chosen = Some(clamp_to_bounds(inp.target));
        } else {
            kept.push(inp);
        }
        i = i + 1;
    }
    proof {
        assert(q0.take(q0.len() as int) =~= q0);
    }
    p.pending = kept;
    match chosen {
        Some(tg) => {
            p.target = tg;
            true
        },
        None => false,
    }
}

/// The roster members whose id the active-connection list still holds.
pub open spec fn connected_only(s: Seq<PlayerEntity>, c: Seq<u64>) -> Seq<PlayerEntity>
    decreases s.len(),
{
    if s.len() == 0 {
        Seq::empty()
    } else {
        let rest = connected_only(s.drop_last(), c);
        if c.contains(s.last().id) {
            rest.push(s.last())
        } else {
            rest
        }
    }
}

/// Drop every player whose connection is gone.
fn retain_connected(v: &mut Vec<PlayerEntity>, c: &Vec<u64>)
    ensures
        final(v)@ == connected_only(old(v)@, c@),
        forall|i: int|
            0 <= i < final(v)@.len() ==> old(v)@.contains(#[trigger] final(v)@[i]) && c@.contains(
                final(v)@[i].id,
            ),
{
    let ghost s0 = v@;
    let total = v.len();
    let mut out: Vec<PlayerEntity> = Vec::new();
    let mut i: usize = 0;
    while i < total
        invariant
            total == s0.len(),
            i <= s0.len(),
            v@ == s0.skip(i as int),
            out@ == connected_only(s0.take(i as int), c@),
            forall|k: int|
                0 <= k < out@.len() ==> s0.contains(#[trigger] out@[k]) && c@.contains(
                    out@[k].id,
                ),
        decreases s0.len() - i,
    {
        let p = v.remove(0);
        proof {
            assert(s0.skip(i as int)[0] == s0[i as int]);
            assert(s0.skip(i as int).remove(0) =~= s0.skip(i + 1));
            assert(s0.take(i + 1).drop_last() =~= s0.take(i as int));
            assert(s0.take(i + 1).last() == s0[i as int]);
        }
        if contains_tick(c, p.id) {
            out.push(p);
            proof {
                assert(out@[out@.len() - 1] == s0[i as int]);
                assert(s0.contains(s0[i as int]));
            }
        }
        i = i + 1;
    }
    proof {
        assert(s0.take(s0.len() as int) =~= s0);
    }
    *v = out;
}

/// One roster member after its due inputs are drained and one seek
/// step is taken: the sweep record the collision pass then finds.
pub open spec fn moved_rec(p: PlayerEntity, t: u64) -> SweepRec {
    let tgt = match last_due_target(p.pending@, t) {
        Option::Some(tg) => tg,
        Option::None => p.target,
    };
    let sp = crate::movement::step_pos(p.pos, tgt);
    (
        p.id,
        p.name,
        Vec2i { x: sp.0 as i64, y: sp.1 as i64 },
        tgt,
        p.spawn_time,
        p.score,
        p.alive,
        p.ln_address,
        kept_inputs(p.pending@, t),
    )
}

/// How many of the first `i` roster members consumed a due input.
pub open spec fn upd_count(ps: Seq<PlayerEntity>, t: u64, i: int) -> int
    decreases i,
{
    if i <= 0 {
        0
    } else {
        upd_count(ps, t, i - 1) + (if last_due_target(ps[i - 1].pending@, t) is Some {
            1int
        } else {
            0int
        })
    }
}

/// Consumed-input counts only grow along the roster.
pub proof fn lemma_upd_count_mono(ps: Seq<PlayerEntity>, t: u64, a: int, b: int)
    requires
        0 <= a <= b,
    ensures
        upd_count(ps, t, a) <= upd_count(ps, t, b),
    decreases b - a,
{
    if a < b {
        lemma_upd_count_mono(ps, t, a, b - 1);
    }
}

/// Everything one tick hands back to the shell: the reconciliation
/// deltas of players whose input was consumed, the collision effects,
/// and the periodic full roster snapshot.
pub struct TickOutcome {
    pub updates: Vec<NewPos>,
    pub effects: Vec<Effect>,
    pub snapshot: Option<Vec<PlayerState>>,
}

/// One full authoritative tick over the world store: prune players no
/// longer alive, admit the newly named ones, consume every due input
/// and move every player, advance both hazard kinds from the shared
/// seed, resolve collisions, and on every snapshot tick prune players
/// whose connection is gone and take a full roster snapshot.
pub fn game_loop_step(
    players: &mut Players,
    objects: &mut Objects,
    new_players: Vec<PlayerEntity>,
    connected: &Vec<u64>,
    server_tick: u64,
    now_ms: u64,
    high_scores: &mut Vec<(String, u64)>,
) -> (out: TickOutcome)
    requires
        forall|i: int| 0 <= i < old(players).0@.len() ==> (#[trigger] old(players).0@[i]).wf(),
        forall|i: int| 0 <= i < new_players@.len() ==> (#[trigger] new_players@[i]).wf(),
        old(objects).wf(),
        sorted_scores(old(high_scores)@),
        old(high_scores)@.len() <= TOP_SCORES,
    ensures
        final(objects).rng_seed == old(objects).rng_seed,
        final(objects).wf(),
        sorted_scores(final(high_scores)@),
        final(high_scores)@.len() <= TOP_SCORES,
        forall|i: int| 0 <= i < final(players).0@.len() ==> (#[trigger] final(players).0@[i]).wf(),
        forall|i: int|
            0 <= i < final(players).0@.len() ==> (#[trigger] final(players).0@[i]).pos.in_bounds(),
        forall|i: int, k: int|
            0 <= i < final(players).0@.len() && 0 <= k < final(players).0@[i].pending@.len() ==> (
            #[trigger] final(players).0@[i].pending@[k]).tick > server_tick,
        server_tick % SNAPSHOT_INTERVAL != 0 ==> out.snapshot is None && ({
            let roster0 = alive_only(old(players).0@) + new_players@;
            final(players).0@.len() == roster0.len() && forall|i: int|
                0 <= i < roster0.len() ==> (#[trigger] final(players).0@[i]).id == roster0[i].id
        }),
        server_tick % SNAPSHOT_INTERVAL == 0 ==> ({
            &&& out.snapshot matches Some(v)
            &&& v@.len() == final(players).0@.len()
            &&& forall|i: int|
                0 <= i < v@.len() ==> #[trigger] v@[i] == (PlayerState {
                    pos: final(players).0@[i].pos,
                    target: final(players).0@[i].target,
                    score: final(players).0@[i].score,
                    name: Some(final(players).0@[i].name),
                    id: final(players).0@[i].id,
                    time_alive: elapsed_secs_spec(now_ms, final(players).0@[i].spawn_time),
                    alive: final(players).0@[i].alive,
                })
            &&& forall|i: int|
                0 <= i < final(players).0@.len() ==> connected@.contains(
                    (#[trigger] final(players).0@[i]).id,
                )
        }),
        forall|k: int|
            0 <= k < out.updates@.len() ==> (#[trigger] out.updates@[k]).tick == server_tick
                && out.updates@[k].tick_adjustment == 0,
        ({
            let roster0 = alive_only(old(players).0@) + new_players@;
            let rs_m = roster0.map_values(|p: PlayerEntity| moved_rec(p, server_tick));
            let rain1 = hazard_step(
                old(objects).rain_pos@,
                old(objects).rng_seed,
                server_tick,
                !is_bolt_tick(server_tick),
            );
            let bolt1 = hazard_step(
                old(objects).bolt_pos@,
                old(objects).rng_seed,
                server_tick,
                is_bolt_tick(server_tick),
            );
            let n = rs_m.len() as int;
            &&& final(objects).rain_pos@ == rain_after(rain1, rs_m, n)
            &&& final(objects).bolt_pos@ == bolt_after(bolt1, rain1, rs_m, n)
            &&& out.effects@.len() == fx_total(rs_m, rain1, bolt1, n)
            &&& forall|i: int|
                0 <= i < n ==> fx_seg_ok(
                    out.effects@,
                    fx_total(rs_m, rain1, bolt1, i),
                    #[trigger] rs_m[i],
                    rain_after(rain1, rs_m, i),
                    bolt_after(bolt1, rain1, rs_m, i),
                    now_ms,
                )
            &&& server_tick % SNAPSHOT_INTERVAL != 0 ==> forall|i: int|
                0 <= i < n ==> swept_rel(
                    rs_m[i],
                    #[trigger] final(players).0@[i],
                    rain_after(rain1, rs_m, i),
                    bolt_after(bolt1, rain1, rs_m, i),
                )
            &&& out.updates@.len() == upd_count(roster0, server_tick, n)
            &&& forall|i: int|
                0 <= i < n && last_due_target(roster0[i].pending@, server_tick) is Some
                    ==> out.updates@[(#[trigger] upd_count(roster0, server_tick, i))] == (NewPos {
                    input: rs_m[i].3,
                    tick: server_tick,
                    id: roster0[i].id,
                    pos: rs_m[i].2,
                    tick_adjustment: 0,
                    adjusment_iteration: 0,
                })
        }),
{
    retain_alive(&mut players.0);
    let mut admitted = new_players;
    players.0.append(&mut admitted);
    let ghost roster0 = players.0@;
    let ghost rs_m = roster0.map_values(|p: PlayerEntity| moved_rec(p, server_tick));

    let mut moved: Vec<PlayerEntity> = Vec::new();
    let mut updates: Vec<NewPos> = Vec::new();
    let mut i: usize = 0;
    let total = players.0.len();
    while i < total
        invariant
            total == roster0.len(),
            i <= roster0.len(),
            players.0@ == roster0.skip(i as int),
            moved@.len() == i,
            forall|k: int| 0 <= k < roster0.len() ==> (#[trigger] roster0[k]).wf(),
            forall|k: int| 0 <= k < i ==> (#[trigger] moved@[k]).wf(),
            forall|k: int| 0 <= k < i ==> (#[trigger] moved@[k]).id == roster0[k].id,
            forall|k: int, m: int|
                0 <= k < i && 0 <= m < moved@[k].pending@.len() ==> (
                #[trigger] moved@[k].pending@[m]).tick > server_tick,
            forall|k: int|
                0 <= k < updates@.len() ==> (#[trigger] updates@[k]).tick == server_tick
                    && updates@[k].tick_adjustment == 0,
            rs_m == roster0.map_values(|p: PlayerEntity| moved_rec(p, server_tick)),
            forall|k: int| 0 <= k < i ==> rec_of(#[trigger] moved@[k]) == rs_m[k],
            updates@.len() == upd_count(roster0, server_tick, i as int),
            forall|k: int|
                0 <= k < i && last_due_target(roster0[k].pending@, server_tick) is Some
                    ==> updates@[(#[trigger] upd_count(roster0, server_tick, k))] == (NewPos {
                    input: rs_m[k].3,
                    tick: server_tick,
                    id: roster0[k].id,
                    pos: rs_m[k].2,
                    tick_adjustment: 0,
                    adjusment_iteration: 0,
                }),
        decreases roster0.len() - i,
    {
        let mut p = players.0.remove(0);
        proof {
            assert(roster0.skip(i as int)[0] == roster0[i as int]);
            assert(roster0.skip(i as int).remove(0) =~= roster0.skip(i + 1));
            assert(p.wf());
            assert(rs_m[i as int] == moved_rec(roster0[i as int], server_tick));
        }
        let consumed = drain_due_inputs(&mut p, server_tick);
        p.apply_input();
        proof {
            let sp = crate::movement::step_pos(
                roster0[i as int].pos,
                moved_rec(roster0[i as int], server_tick).3,
            );
            assert(p.pos == (Vec2i { x: sp.0 as i64, y: sp.1 as i64 }));
            assert(rec_of(p) == rs_m[i as int]);
        }
        let ghost upd_pre = updates@;
        if consumed {
            updates.push(NewPos::new(p.target, server_tick, p.id, p.pos, 0, 0));
        }
        proof {
            assert(upd_count(roster0, server_tick, i + 1) == upd_count(
                roster0,
                server_tick,
                i as int,
            ) + (if last_due_target(roster0[i as int].pending@, server_tick) is Some {
                1int
            } else {
                0int
            }));
            if consumed {
                assert(updates@[upd_count(roster0, server_tick, i as int)] == (NewPos {
                    input: rs_m[i as int].3,
                    tick: server_tick,
                    id: roster0[i as int].id,
                    pos: rs_m[i as int].2,
                    tick_adjustment: 0,
                    adjusment_iteration: 0,
                }));
            }
            assert forall|k: int|
                0 <= k < i && last_due_target(roster0[k].pending@, server_tick) is Some implies
                updates@[(#[trigger] upd_count(roster0, server_tick, k))] == (NewPos {
                input: rs_m[k].3,
                tick: server_tick,
                id: roster0[k].id,
                pos: rs_m[k].2,
                tick_adjustment: 0,
                adjusment_iteration: 0,
            }) by {
                lemma_upd_count_mono(roster0, server_tick, 0, k);
                lemma_upd_count_mono(roster0, server_tick, k + 1, i as int);
                assert(upd_count(roster0, server_tick, k + 1) == upd_count(
                    roster0,
                    server_tick,
                    k,
                ) + 1);
                assert(updates@[upd_count(roster0, server_tick, k)] == upd_pre[upd_count(
                    roster0,
                    server_tick,
                    k,
                )]);
            }
        }
        moved.push(p);
        i = i + 1;
    }
    players.0 = moved;
    let ghost stepped = players.0@;
    proof {
        assert(stepped.map_values(|p: PlayerEntity| rec_of(p)) =~= rs_m);
    }

    objects.move_rain(server_tick);
    objects.move_bolts(server_tick);
    let ghost rain1 = objects.rain_pos@;
    let ghost bolt1 = objects.bolt_pos@;
    let effects = objects.collision(players, now_ms, high_scores);
    let ghost swept = players.0@;
    proof {
        assert forall|i: int, k: int|
            0 <= i < swept.len() && 0 <= k < swept[i].pending@.len() implies (
        #[trigger] swept[i].pending@[k]).tick > server_tick by {
            assert(collided(stepped[i], swept[i]));
        }
        assert forall|i: int| 0 <= i < swept.len() implies (#[trigger] swept[i]).wf() by {
            assert(collided(stepped[i], swept[i]));
        }
    }

    let snapshot: Option<Vec<PlayerState>> = if server_tick % SNAPSHOT_INTERVAL == 0 {
        retain_connected(&mut players.0, connected);
        proof {
            assert forall|i: int, k: int|
                0 <= i < players.0@.len() && 0 <= k < players.0@[i].pending@.len() implies (
            #[trigger] players.0@[i].pending@[k]).tick > server_tick by {
                assert(swept.contains(players.0@[i]));
                let m = choose|m: int| 0 <= m < swept.len() && swept[m] == players.0@[i];
                assert(swept[m].pending@[k].tick > server_tick);
            }
            assert forall|i: int| 0 <= i < players.0@.len() implies (
            #[trigger] players.0@[i]).wf() by {
                assert(swept.contains(players.0@[i]));
                let m = choose|m: int| 0 <= m < swept.len() && swept[m] == players.0@[i];
                assert(swept[m].wf());
            }
        }
        let mut states: Vec<PlayerState> = Vec::new();
        let mut k: usize = 0;
        while k < players.0.len()
            invariant
                k <= players.0@.len(),
                states@.len() == k,
                forall|m: int|
                    0 <= m < k ==> #[trigger] states@[m] == (PlayerState {
                        pos: players.0@[m].pos,
                        target: players.0@[m].target,
                        score: players.0@[m].score,
                        name: Some(players.0@[m].name),
                        id: players.0@[m].id,
                        time_alive: elapsed_secs_spec(now_ms, players.0@[m].spawn_time),
                        alive: players.0@[m].alive,
                    }),
            decreases players.0@.len() - k,
        {
            let p = &players.0[k];
            let secs = elapsed_secs(now_ms, p.spawn_time);
            states.push(
                PlayerState::new(
                    p.pos,
                    p.target,
                    p.score,
                    Some(p.name.clone()),
                    p.id,
                    secs,
                    p.alive,
                ),
            );
            k = k + 1;
        }
        Some(states)
    } else {
        None
    };

    TickOutcome { updates, effects, snapshot }
}

} // verus!
