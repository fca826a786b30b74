//! A player session: the per-connection reconciliation protocol that
//! judges inputs tagged with a client-side tick against the server
//! tick, with the session's own replayed hazard view and life cycle.
use vstd::prelude::*;

use crate::collision::{misses, struck};
use crate::config::{BOLT_REWARD, TICK_HORIZON, WIN_REWARD, WIN_SCORE};
use crate::game_loop::{
    damage_event, elapsed_secs_spec, resolve_bolts_for, resolve_rain_for, Effect, PlayerEntity,
};
use crate::geom::{clamp_spec, clamp_to_bounds, Vec2i};
use crate::hazards::{advance_hazards, all_in_bounds, hazard_step, is_bolt_tick, make_spawn,
    ObjectPos};
use crate::messages::{NetworkMessage, NewGame, NewPos, ObjectMsg, PlayerConnected, PlayerInput,
    Score};
use crate::scores::{best_of, improves, sorted_scores, TOP_SCORES};

verus! {

/// A per-connection session: reconciliation bookkeeping, the session's
/// replayed hazard view, and its play state.
pub struct Player {
    pub target: Vec2i,
    pub pos: Vec2i,
    pub id: u64,
    pub score: usize,
    pub name: String,
    pub adjusment_iteration: u64,
    pub msg_sent: Vec<u64>,
    pub adjust_complete: bool,
    pub rain: Vec<ObjectPos>,
    pub new_game_sent: bool,
    pub game_start: bool,
    pub bolt: Vec<ObjectPos>,
    pub spawn_time: Option<u64>,
}

impl Player {
    /// Position and target inside the world, hazards inside the world,
    /// and a session in play always below the win threshold with a
    /// spawn time on record.
    pub open spec fn wf(self) -> bool {
        &&& self.pos.in_bounds()
        &&& self.target.in_bounds()
        &&& all_in_bounds(self.rain@)
        &&& all_in_bounds(self.bolt@)
        &&& self.game_start ==> self.score < WIN_SCORE && self.spawn_time is Some
    }

    pub fn new(id: u64) -> (p: Player)
        ensures
            p.id == id,
            p.target == (Vec2i { x: 0, y: 0 }),
            p.pos == (Vec2i { x: 0, y: 0 }),
            p.score == 0,
            p.name@ == Seq::<char>::empty(),
            p.adjusment_iteration == 0,
            p.msg_sent@ == Seq::<u64>::empty(),
            p.adjust_complete,
            p.rain@ == Seq::<ObjectPos>::empty(),
            !p.new_game_sent,
            !p.game_start,
            p.bolt@ == Seq::<ObjectPos>::empty(),
            p.spawn_time is None,
            p.wf(),
    {
        let p = Player {
            target: Vec2i::new(0, 0),
            pos: Vec2i::new(0, 0),
            id,
            score: 0,
            name: String::new(),
            adjusment_iteration: 0,
            msg_sent: Vec::new(),
            adjust_complete: true,
            rain: Vec::new(),
            new_game_sent: false,
            game_start: false,
            bolt: Vec::new(),
            spawn_time: None,
        };
        proof {
            assert(p.msg_sent@ =~= Seq::<u64>::empty());
            assert(p.rain@ =~= Seq::<ObjectPos>::empty());
            assert(p.bolt@ =~= Seq::<ObjectPos>::empty());
        }
        p
    }

    /// Build the reconciliation update broadcast after judging inputs:
    /// one position delta carrying the correction and iteration count.
    pub fn create_game_update_message(
        &self,
        new_tick: u64,
        player_id: u64,
        tick_adjustment: i64,
        adjusment_iteration: u64,
    ) -> (m: NetworkMessage)
        ensures
            m matches NetworkMessage::GameUpdate(v) && v@.len() == 1 && v@[0] == (NewPos {
                input: self.target,
                tick: new_tick,
                id: player_id,
                pos: self.pos,
                tick_adjustment,
                adjusment_iteration,
            }),
    {
        let mut v: Vec<NewPos> = Vec::new();
        v.push(
            NewPos::new(
                self.target,
                new_tick,
                player_id,
                self.pos,
                tick_adjustment,
                adjusment_iteration,
            ),
        );
        NetworkMessage::GameUpdate(v)
    }
}

/// Whether a claimed name has the form of a payable lightning address.
pub uninterp spec fn ln_format_ok(s: Seq<char>) -> bool;

/// Relies on zebedee_rust's LnAddress::validate: a format check (an
/// email-shaped address) whose verdict depends on the string alone.
#[verifier::external_body]
fn ln_address_format_ok(address: &String) -> (r: bool)
    ensures
        r == ln_format_ok(address@),
{
    let ln = zebedee_rust::ln_address::LnAddress { address: address.clone() };
    ln.validate().is_ok()
}

/// Whether a vector of ticks holds a given tick.
pub fn contains_tick(v: &Vec<u64>, x: u64) -> (r: bool)
    ensures
        r == v@.contains(x),
{
    let mut i: usize = 0;
    while i < v.len()
        invariant
            i <= v@.len(),
            forall|k: int| 0 <= k < i ==> v@[k] != x,
        decreases v@.len() - i,
    {
        if v[i] == x {
            return true;
        }
        i = i + 1;
    }
    false
}

/// Reconciliation bookkeeping as one value: the applied target, the
/// adjustment iteration counter, the adjust-complete flag, the set of
/// future ticks already corrected, and the correction of the latest
/// update earned (none if no input called for one).
pub type ReconState = (Vec2i, u64, bool, Seq<u64>, Option<i64>);

/// An input neither on time nor in the near future: the client clock
/// has drifted behind the server or beyond the horizon ahead of it.
pub open spec fn out_of_sync(inp: PlayerInput, new_tick: u64) -> bool {
    inp.tick < new_tick || inp.tick > new_tick + TICK_HORIZON
}

/// Judge one queued input against the server tick.
///
/// On time: its target is applied (clamped into the world) and a
/// zero-adjustment update is earned. Late: the target is applied
/// best-effort, a negative correction is earned, and the iteration
/// counter advances once per contiguous run (only while the previous
/// run was complete). Beyond the horizon ahead: a positive correction
/// is earned at most once per distinct future tick. Near future: the
/// run is marked complete and the input waits its turn.
pub open spec fn recon_step(st: ReconState, inp: PlayerInput, new_tick: u64) -> ReconState {
    let (target, iter, complete, sent, upd) = st;
    if inp.tick == new_tick {
        (clamp_spec(inp.target), iter, complete, sent, Some(0 as i64))
    } else if inp.tick < new_tick {
        (
            clamp_spec(inp.target),
            if complete {
                (iter + 1) as u64
            } else {
                iter
            },
            false,
            sent,
            Some((-((new_tick - inp.tick) as i64)) as i64),
        )
    } else if inp.tick > new_tick + TICK_HORIZON {
        if sent.contains(inp.tick) {
            st
        } else {
            (
                target,
                if complete {
                    (iter + 1) as u64
                } else {
                    iter
                },
                false,
                sent.push(inp.tick),
                Some((inp.tick - new_tick) as i64),
            )
        }
    } else {
        (target, iter, true, sent, upd)
    }
}

/// Judge a whole queue, in order.
pub open spec fn recon_fold(q: Seq<PlayerInput>, new_tick: u64, st0: ReconState) -> ReconState
    decreases q.len(),
{
    if q.len() == 0 {
        st0
    } else {
        recon_step(recon_fold(q.drop_last(), new_tick, st0), q.last(), new_tick)
    }
}

/// The inputs a queue keeps after judging: exactly those for a tick
/// still to come.
pub open spec fn kept_inputs(q: Seq<PlayerInput>, new_tick: u64) -> Seq<PlayerInput>
    decreases q.len(),
{
    if q.len() == 0 {
        Seq::empty()
    } else {
        let rest = kept_inputs(q.drop_last(), new_tick);
        if q.last().tick > new_tick {
            rest.push(q.last())
        } else {
            rest
        }
    }
}

impl Player {
    /// Judge every queued input against the new server tick: apply
    /// targets, advance the reconciliation bookkeeping, and keep only
    /// inputs whose tick is still to come. Returns the update to
    /// broadcast if any input earned one.
    pub fn process_inputs(&mut self, inputs: &mut Vec<PlayerInput>, new_tick: u64) -> (update:
        Option<NetworkMessage>)
        requires
            old(self).wf(),
            new_tick <= i64::MAX as u64,
            forall|i: int|
                0 <= i < old(inputs)@.len() ==> (#[trigger] old(inputs)@[i]).tick <= i64::MAX
                    as u64,
            old(self).adjusment_iteration + old(inputs)@.len() <= u64::MAX,
        ensures
            final(self).wf(),
            ({
                let st0 = (
                    old(self).target,
                    old(self).adjusment_iteration,
                    old(self).adjust_complete,
                    old(self).msg_sent@,
                    Option::<i64>::None,
                );
                let st = recon_fold(old(inputs)@, new_tick, st0);
                &&& final(self).target == st.0
                &&& final(self).adjusment_iteration == st.1
                &&& final(self).adjust_complete == st.2
                &&& final(self).msg_sent@ == st.3
                &&& final(inputs)@ == kept_inputs(old(inputs)@, new_tick)
                &&& forall|i: int|
                    0 <= i < final(inputs)@.len() ==> (#[trigger] final(inputs)@[i]).tick
                        > new_tick
                &&& final(self).pos == old(self).pos
                &&& final(self).id == old(self).id
                &&& final(self).score == old(self).score
                &&& final(self).name == old(self).name
                &&& final(self).rain == old(self).rain
                &&& final(self).bolt == old(self).bolt
                &&& final(self).new_game_sent == old(self).new_game_sent
                &&& final(self).game_start == old(self).game_start
                &&& final(self).spawn_time == old(self).spawn_time
                &&& st.4 is None <==> update is None
                &&& st.4 matches Some(adj) ==> update matches Some(m) && m
                    matches NetworkMessage::GameUpdate(v) && v@.len() == 1 && v@[0] == (NewPos {
                    input: st.0,
                    tick: new_tick,
                    id: old(self).id,
                    pos: old(self).pos,
                    tick_adjustment: adj,
                    adjusment_iteration: st.1,
                })
            }),
    {
        let ghost q0 = inputs@;
        let ghost self0 = *self;
        let ghost st0 = (
            self0.target,
            self0.adjusment_iteration,
            self0.adjust_complete,
            self0.msg_sent@,
            Option::<i64>::None,
        );
        let mut kept: Vec<PlayerInput> = Vec::new();
        let mut last_adj: Option<i64> = None;
        let mut i: usize = 0;
        let horizon = new_tick + TICK_HORIZON;
        while i < inputs.len()
            invariant
                i <= q0.len(),
                inputs@ == q0,
                new_tick <= i64::MAX as u64,
                forall|k: int| 0 <= k < q0.len() ==> (#[trigger] q0[k]).tick <= i64::MAX as u64,
                horizon == new_tick + TICK_HORIZON,
                st0 == (
                    self0.target,
                    self0.adjusment_iteration,
                    self0.adjust_complete,
                    self0.msg_sent@,
                    Option::<i64>::None,
                ),
                self0.adjusment_iteration + q0.len() <= u64::MAX,
                ({
                    let st = recon_fold(q0.take(i as int), new_tick, st0);
                    &&& self.target == st.0
                    &&& self.adjusment_iteration == st.1
                    &&& self.adjust_complete == st.2
                    &&& self.msg_sent@ == st.3
                    &&& last_adj == st.4
                    &&& st.1 <= self0.adjusment_iteration + i
                }),
                kept@ == kept_inputs(q0.take(i as int), new_tick),
                forall|k: int| 0 <= k < kept@.len() ==> (#[trigger] kept@[k]).tick > new_tick,
                self.target.in_bounds(),
                self.pos == self0.pos,
                self.id == self0.id,
                self.score == self0.score,
                self.name == self0.name,
                self.rain == self0.rain,
                self.bolt == self0.bolt,
                self.new_game_sent == self0.new_game_sent,
                self.game_start == self0.game_start,
                self.spawn_time == self0.spawn_time,
                self0.wf(),
            decreases q0.len() - i,
        {
            let inp = inputs[i];
            proof {
                assert(q0.take(i + 1).drop_last() =~= q0.take(i as int));
                assert(q0.take(i + 1).last() == q0[i as int]);
            }
            if inp.tick == new_tick {
                self.target = clamp_to_bounds(inp.target);
                last_adj = Some(0);
            } else if inp.tick < new_tick {
                self.target = clamp_to_bounds(inp.target);
                if self.adjust_complete {
                    self.adjusment_iteration = self.adjusment_iteration + 1;
                }
                self.adjust_complete = false;
                let diff = new_tick - inp.tick;
                last_adj = Some(-(diff as i64));
            } else if inp.tick > horizon {
                if !contains_tick(&self.msg_sent, inp.tick) {
                    if self.adjust_complete {
                        self.adjusment_iteration = self.adjusment_iteration + 1;
                    }
                    self.adjust_complete = false;
                    self.msg_sent.push(inp.tick);
                    let diff = inp.tick - new_tick;
                    last_adj = Some(diff as i64);
                }
                kept.push(inp);
            } else {
                self.adjust_complete = true;
                kept.push(inp);
            }
            i = i + 1;
        }
        proof {
            assert(q0.take(q0.len() as int) =~= q0);
        }
        *inputs = kept;
        match last_adj {
            Some(adj) => Some(
                self.create_game_update_message(new_tick, self.id, adj, self.adjusment_iteration),
            ),
            None => None,
        }
    }
}

impl Player {
    /// The displacement one seek step would take this session's player.
    pub fn calculate_movement(&self) -> (m: Vec2i)
        requires
            self.wf(),
        ensures
            (m.x as int, m.y as int) == crate::movement::seek_delta(self.pos, self.target),
    {
        crate::movement::calculate_movement(self.pos, self.target)
    }

    /// Step toward the target; a step that would leave the world is
    /// rejected and the position stays put.
    pub fn apply_input(&mut self)
        requires
            old(self).wf(),
        ensures
            (final(self).pos.x as int, final(self).pos.y as int) == crate::movement::step_pos(
                old(self).pos,
                old(self).target,
            ),
            *final(self) == (Player { pos: final(self).pos, ..*old(self) }),
            final(self).wf(),
    {
        let p2 = crate::movement::apply_seek(self.pos, self.target);
        self.pos = p2;
    }

    /// Claim a name and start a fresh play session. Announces the join
    /// to every session and reports whether the name has the form of a
    /// payable address, which alone gates payment eligibility.
    pub fn player_name(&mut self, name: String, now_ms: u64) -> (r: (NetworkMessage, bool))
        requires
            old(self).wf(),
        ensures
            *final(self) == (Player {
                name: name,
                spawn_time: Some(now_ms),
                game_start: true,
                score: 0,
                ..*old(self)
            }),
            final(self).wf(),
            r.0 == NetworkMessage::PlayerConnected((PlayerConnected { id: old(self).id, name })),
            r.1 == ln_format_ok(name@),
    {
        let payable = ln_address_format_ok(&name);
        self.name = name.clone();
        self.spawn_time = Some(now_ms);
        self.game_start = true;
        self.score = 0;
        (NetworkMessage::PlayerConnected(PlayerConnected::new(self.id, name)), payable)
    }

    /// Build the session bootstrap message, marking it sent.
    pub fn new_game(
        &mut self,
        new_tick: u64,
        rng_seed: u64,
        high_scores: Vec<(String, u64)>,
        objects: ObjectMsg,
    ) -> (m: NetworkMessage)
        ensures
            *final(self) == (Player { new_game_sent: true, ..*old(self) }),
            m == NetworkMessage::NewGame(
                (NewGame {
                    id: old(self).id,
                    server_tick: new_tick,
                    rng_seed,
                    high_scores,
                    objects,
                }),
            ),
    {
        self.new_game_sent = true;
        NetworkMessage::NewGame(NewGame::new(self.id, new_tick, rng_seed, high_scores, objects))
    }

    /// Advance this session's replayed hazard view one tick from the
    /// shared seed, then resolve collisions for a session in play:
    /// scoring hazards first — each consumed hazard scores, announces
    /// and (for a payable player) pays, until the win threshold ends
    /// the session — then damaging hazards, any of which ends it.
    #[verifier::rlimit(100)]
    pub fn objects(
        &mut self,
        seed: u64,
        new_tick: u64,
        now_ms: u64,
        ln_address: bool,
        high_scores: &mut Vec<(String, u64)>,
    ) -> (effects: Vec<Effect>)
        requires
            old(self).wf(),
            sorted_scores(old(high_scores)@),
            old(high_scores)@.len() <= TOP_SCORES,
        ensures
            final(self).wf(),
            sorted_scores(final(high_scores)@),
            final(high_scores)@.len() <= TOP_SCORES,
            final(self).id == old(self).id,
            final(self).name == old(self).name,
            final(self).pos == old(self).pos,
            final(self).adjusment_iteration == old(self).adjusment_iteration,
            final(self).msg_sent == old(self).msg_sent,
            final(self).adjust_complete == old(self).adjust_complete,
            final(self).new_game_sent == old(self).new_game_sent,
            final(self).spawn_time == old(self).spawn_time,
            ({
                let rain1 = hazard_step(old(self).rain@, seed, new_tick, !is_bolt_tick(new_tick));
                let bolt1 = hazard_step(old(self).bolt@, seed, new_tick, is_bolt_tick(new_tick));
                &&& !old(self).game_start ==> final(self).rain@ == rain1 && final(self).bolt@
                    == bolt1 && final(self).score == old(self).score && final(self).target == old(
                    self,
                ).target && final(self).game_start == old(self).game_start && effects@
                    == Seq::<Effect>::empty() && *final(high_scores) == *old(high_scores)
                &&& old(self).game_start ==> ({
                    &&& old(self).spawn_time matches Some(t0)
                    &&& {
                    let pos = old(self).pos;
                    let st_b = struck(bolt1, pos);
                    let k = st_b.len() as int;
                    let need = WIN_SCORE - old(self).score;
                    let j = if k < need {
                        k
                    } else {
                        need
                    };
                    let win = k >= need;
                    let pay = if ln_address {
                        1int
                    } else {
                        0int
                    };
                    let base = j + (if ln_address {
                        j
                    } else {
                        0int
                    });
                    let secs = elapsed_secs_spec(now_ms, t0);
                    let st_r = struck(rain1, pos);
                    let dead = st_r.len() > 0;
                    &&& final(self).bolt@ == misses(bolt1, pos)
                    &&& !win ==> *final(high_scores) == *old(high_scores)
                    &&& forall|i: int|
                        0 <= i < j ==> #[trigger] effects@[i] == Effect::Broadcast(
                            NetworkMessage::ScoreUpdate(
                                (Score {
                                    id: old(self).id,
                                    score: (old(self).score + i + 1) as usize,
                                    tick: st_b[i].tick,
                                }),
                            ),
                        )
                    &&& ln_address ==> forall|i: int|
                        j <= i < 2 * j ==> #[trigger] effects@[i] == (Effect::Payout {
                            ln_address: old(self).name,
                            amount: BOLT_REWARD,
                        })
                    &&& win ==> {
                        &&& final(self).rain@ == rain1
                        &&& !final(self).game_start
                        &&& final(self).score == 0
                        &&& final(self).target == old(self).target
                        &&& effects@.len() == base + pay + 2
                        &&& ln_address ==> effects@[base] == (Effect::Payout {
                            ln_address: old(self).name,
                            amount: WIN_REWARD,
                        })
                        &&& effects@[base + pay] == (Effect::RecordHighScore {
                            name: old(self).name,
                            secs_alive: secs,
                        })
                        &&& damage_event(
                            effects@[base + pay + 1],
                            old(self).id,
                            None,
                            secs,
                            Some(final(high_scores)@),
                            pos,
                            WIN_SCORE,
                            true,
                        )
                        &&& forall|i: int|
                            0 <= i < final(high_scores)@.len() ==> old(high_scores)@.contains(
                                #[trigger] final(high_scores)@[i],
                            ) || (final(high_scores)@[i].1 == secs
                                && final(high_scores)@[i].0@ == old(self).name@)
                        &&& !improves(best_of(old(high_scores)@, old(self).name@), secs)
                            ==> *final(high_scores) == *old(high_scores)
                        &&& improves(best_of(old(high_scores)@, old(self).name@), secs) ==> (exists|
                            i: int|
                            0 <= i < final(high_scores)@.len()
                                && (#[trigger] final(high_scores)@[i]).1 == secs
                                && final(high_scores)@[i].0@ == old(self).name@) || (forall|i: int|
                            0 <= i < final(high_scores)@.len()
                                ==> (#[trigger] final(high_scores)@[i]).1 <= secs)
                    }
                    &&& !win ==> {
                        &&& final(self).rain@ == misses(rain1, pos)
                        &&& final(self).game_start == !dead
                        &&& final(self).score as int == (if dead {
                            0int
                        } else {
                            old(self).score + j
                        })
                        &&& final(self).target == (if dead {
                            pos
                        } else {
                            old(self).target
                        })
                        &&& effects@.len() == base + st_r.len()
                        &&& forall|i: int|
                            base <= i < base + st_r.len() ==> damage_event(
                                #[trigger] effects@[i],
                                old(self).id,
                                Some(st_r[i - base].tick),
                                secs,
                                None,
                                pos,
                                (old(self).score + j) as usize,
                                false,
                            )
                    }
                }
                })
            }),
    {
        let h = make_spawn(seed, new_tick);
        if new_tick % 5 != 0 {
            advance_hazards(&mut self.rain, Some(h));
            advance_hazards(&mut self.bolt, None);
        } else {
            advance_hazards(&mut self.rain, None);
            advance_hazards(&mut self.bolt, Some(h));
        }
        if !self.game_start {
            let effects: Vec<Effect> = Vec::new();
            proof {
                assert(effects@ =~= Seq::<Effect>::empty());
            }
            return effects;
        }
        // A session in play always carries a spawn time, so the
        // fallback arm is never reached.
        let t0 = match self.spawn_time {
            Some(t) => t,
            None => 0,
        };
        let mut scratch = PlayerEntity {
            id: self.id,
            name: self.name.clone(),
            pos: self.pos,
            target: self.target,
            spawn_time: t0,
            score: self.score,
            alive: true,
            ln_address,
            pending: Vec::new(),
        };
        let mut effects = resolve_bolts_for(&mut scratch, &mut self.bolt, now_ms, high_scores);
        let ghost bolt_fx = effects@;
        if scratch.alive {
            let mut rain_effects = resolve_rain_for(&mut scratch, &mut self.rain, now_ms);
            let ghost rain_fx = rain_effects@;
            effects.append(&mut rain_effects);
            proof {
                assert(effects@ == bolt_fx + rain_fx);
                assert forall|i: int| 0 <= i < bolt_fx.len() implies #[trigger] effects@[i]
                    == bolt_fx[i] by {}
                assert forall|i: int|
                    bolt_fx.len() <= i < effects@.len() implies #[trigger] effects@[i] == rain_fx[i
                    - bolt_fx.len()] by {}
            }
            if scratch.alive {
                self.score = scratch.score;
            } else {
                self.game_start = false;
                self.score = 0;
                self.target = self.pos;
            }
        } else {
            self.game_start = false;
            self.score = 0;
        }
        effects
    }
}

impl Player {
    /// Everything a session does when the tick fires: judge the queued
    /// inputs, take one movement step, and advance and resolve the
    /// session's hazard view. Returns the reconciliation update the
    /// inputs earned, if any, and the collision effects.
    pub fn on_tick(
        &mut self,
        inputs: &mut Vec<PlayerInput>,
        seed: u64,
        new_tick: u64,
        now_ms: u64,
        ln_address: bool,
        high_scores: &mut Vec<(String, u64)>,
    ) -> (out: (Option<NetworkMessage>, Vec<Effect>))
        requires
            old(self).wf(),
            sorted_scores(old(high_scores)@),
            old(high_scores)@.len() <= TOP_SCORES,
            new_tick <= i64::MAX as u64,
            forall|i: int|
                0 <= i < old(inputs)@.len() ==> (#[trigger] old(inputs)@[i]).tick <= i64::MAX
                    as u64,
            old(self).adjusment_iteration + old(inputs)@.len() <= u64::MAX,
        ensures
            final(self).wf(),
            final(self).pos.in_bounds(),
            sorted_scores(final(high_scores)@),
            final(high_scores)@.len() <= TOP_SCORES,
            final(inputs)@ == kept_inputs(old(inputs)@, new_tick),
            forall|i: int|
                0 <= i < final(inputs)@.len() ==> (#[trigger] final(inputs)@[i]).tick > new_tick,
            final(self).id == old(self).id,
            final(self).new_game_sent == old(self).new_game_sent,
            final(self).name == old(self).name,
            final(self).spawn_time == old(self).spawn_time,
            ({
                let st0 = (
                    old(self).target,
                    old(self).adjusment_iteration,
                    old(self).adjust_complete,
                    old(self).msg_sent@,
                    Option::<i64>::None,
                );
                let st = recon_fold(old(inputs)@, new_tick, st0);
                &&& final(self).adjusment_iteration == st.1
                &&& final(self).adjust_complete == st.2
                &&& final(self).msg_sent@ == st.3
                &&& (st.4 is None <==> out.0 is None)
                &&& st.4 matches Some(adj) ==> out.0 matches Some(m) && m
                    matches NetworkMessage::GameUpdate(v) && v@.len() == 1 && v@[0] == (NewPos {
                    input: st.0,
                    tick: new_tick,
                    id: old(self).id,
                    pos: old(self).pos,
                    tick_adjustment: adj,
                    adjusment_iteration: st.1,
                })
                &&& (final(self).pos.x as int, final(self).pos.y as int)
                    == crate::movement::step_pos(old(self).pos, st.0)
                &&& ({
                    let sp = crate::movement::step_pos(old(self).pos, st.0);
                    let pos_m = Vec2i { x: sp.0 as i64, y: sp.1 as i64 };
                    let rain1 = hazard_step(
                        old(self).rain@,
                        seed,
                        new_tick,
                        !is_bolt_tick(new_tick),
                    );
                    let bolt1 = hazard_step(old(self).bolt@, seed, new_tick, is_bolt_tick(new_tick));
                    &&& !old(self).game_start ==> final(self).rain@ == rain1 && final(self).bolt@
                        == bolt1 && final(self).target == st.0
                    &&& old(self).game_start ==> ({
                        &&& old(self).spawn_time matches Some(t0)
                        &&& {
                            let st_b = struck(bolt1, pos_m);
                            let k = st_b.len() as int;
                            let need = WIN_SCORE - old(self).score;
                            let j = if k < need {
                                k
                            } else {
                                need
                            };
                            let win = k >= need;
                            let pay = if ln_address {
                                1int
                            } else {
                                0int
                            };
                            let base = j + (if ln_address {
                                j
                            } else {
                                0int
                            });
                            let secs = elapsed_secs_spec(now_ms, t0);
                            let st_r = struck(rain1, pos_m);
                            let dead = st_r.len() > 0;
                            &&& final(self).bolt@ == misses(bolt1, pos_m)
                            &&& !win ==> *final(high_scores) == *old(high_scores)
                            &&& forall|i: int|
                                0 <= i < j ==> #[trigger] out.1@[i] == Effect::Broadcast(
                                    NetworkMessage::ScoreUpdate(
                                        (Score {
                                            id: old(self).id,
                                            score: (old(self).score + i + 1) as usize,
                                            tick: st_b[i].tick,
                                        }),
                                    ),
                                )
                            &&& ln_address ==> forall|i: int|
                                j <= i < 2 * j ==> #[trigger] out.1@[i] == (Effect::Payout {
                                    ln_address: old(self).name,
                                    amount: BOLT_REWARD,
                                })
                            &&& win ==> {
                                &&& final(self).rain@ == rain1
                                &&& !final(self).game_start
                                &&& final(self).score == 0
                                &&& final(self).target == st.0
                                &&& out.1@.len() == base + pay + 2
                                &&& ln_address ==> out.1@[base] == (Effect::Payout {
                                    ln_address: old(self).name,
                                    amount: WIN_REWARD,
                                })
                                &&& out.1@[base + pay] == (Effect::RecordHighScore {
                                    name: old(self).name,
                                    secs_alive: secs,
                                })
                                &&& damage_event(
                                    out.1@[base + pay + 1],
                                    old(self).id,
                                    None,
                                    secs,
                                    Some(final(high_scores)@),
                                    pos_m,
                                    WIN_SCORE,
                                    true,
                                )
                            }
                            &&& !win ==> {
                                &&& final(self).rain@ == misses(rain1, pos_m)
                                &&& final(self).game_start == !dead
                                &&& final(self).score as int == (if dead {
                                    0int
                                } else {
                                    old(self).score + j
                                })
                                &&& final(self).target == (if dead {
                                    pos_m
                                } else {
                                    st.0
                                })
                                &&& out.1@.len() == base + st_r.len()
                                &&& forall|i: int|
                                    base <= i < base + st_r.len() ==> damage_event(
                                        #[trigger] out.1@[i],
                                        old(self).id,
                                        Some(st_r[i - base].tick),
                                        secs,
                                        None,
                                        pos_m,
                                        (old(self).score + j) as usize,
                                        false,
                                    )
                            }
                        }
                    })
                })
            }),
            !old(self).game_start ==> final(self).score == old(self).score
                && final(self).game_start == old(self).game_start
                && out.1@ == Seq::<Effect>::empty()
                && *final(high_scores) == *old(high_scores),
    {
        let update = self.process_inputs(inputs, new_tick);
        self.apply_input();
        let effects = self.objects(seed, new_tick, now_ms, ln_address, high_scores);
        (update, effects)
    }
}

/// Law: the adjustment iteration counter advances at most once per
/// contiguous run of out-of-sync inputs — once a run has advanced it
/// (or a previous run is still being compensated), further out-of-sync
/// inputs leave it unchanged.
pub proof fn lemma_adjustment_iteration_per_run(
    q: Seq<PlayerInput>,
    new_tick: u64,
    st0: ReconState,
)
    requires
        forall|i: int| 0 <= i < q.len() ==> out_of_sync(#[trigger] q[i], new_tick),
        st0.1 < u64::MAX,
    ensures
        ({
            let st = recon_fold(q, new_tick, st0);
            &&& st0.1 <= st.1 <= st0.1 + (if st0.2 {
                1int
            } else {
                0int
            })
            &&& st.1 > st0.1 ==> !st.2
            &&& st.2 ==> st0.2
        }),
    decreases q.len(),
{
    if q.len() > 0 {
        lemma_adjustment_iteration_per_run(q.drop_last(), new_tick, st0);
        assert(out_of_sync(q.last(), new_tick));
    }
}

} // verus!
