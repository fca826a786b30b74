//! The message vocabulary of the protocol: everything the server pushes
//! to clients and everything a client may send, as plain values.
use vstd::prelude::*;

use crate::geom::Vec2i;

verus! {

/// One player's authoritative position after a tick, with the
/// reconciliation correction its input earned.
#[derive(Clone, Debug, PartialEq)]
pub struct NewPos {
    pub input: Vec2i,
    pub tick: u64,
    pub id: u64,
    pub pos: Vec2i,
    pub tick_adjustment: i64,
    pub adjusment_iteration: u64,
}

impl NewPos {
    pub fn new(
        input: Vec2i,
        tick: u64,
        id: u64,
        pos: Vec2i,
        tick_adjustment: i64,
        adjusment_iteration: u64,
    ) -> (m: NewPos)
        ensures
            m == (NewPos { input, tick, id, pos, tick_adjustment, adjusment_iteration }),
    {
        NewPos { input, tick, id, pos, tick_adjustment, adjusment_iteration }
    }
}

/// A tick-adjustment notice sent to one client whose input arrived on
/// the wrong tick.
#[derive(Clone, Debug, PartialEq)]
pub struct SyncMessage {
    pub tick_adjustment: i64,
    pub server_tick: u64,
}

impl SyncMessage {
    pub fn new(tick_adjustment: i64, server_tick: u64) -> (m: SyncMessage)
        ensures
            m == (SyncMessage { tick_adjustment, server_tick }),
    {
        SyncMessage { tick_adjustment, server_tick }
    }
}

/// A client's directional input: the target sought and the client-side
/// tick it was issued for.
#[derive(Clone, Copy, Debug, PartialEq)]
pub struct PlayerInput {
    pub target: Vec2i,
    pub id: u64,
    pub tick: u64,
}

impl PlayerInput {
    pub fn new(target: Vec2i, id: u64, tick: u64) -> (m: PlayerInput)
        ensures
            m == (PlayerInput { target, id, tick }),
    {
        PlayerInput { target, id, tick }
    }
}

/// A snapshot of the live hazards, keyed by spawn tick, for session
/// bootstrap.
#[derive(Clone, Debug, PartialEq)]
pub struct ObjectMsg {
    pub rain_pos: Vec<(u64, Vec2i)>,
    pub bolt_pos: Vec<(u64, Vec2i)>,
}

impl ObjectMsg {
    pub fn new(rain_pos: Vec<(u64, Vec2i)>, bolt_pos: Vec<(u64, Vec2i)>) -> (m: ObjectMsg)
        ensures
            m.rain_pos == rain_pos,
            m.bolt_pos == bolt_pos,
    {
        ObjectMsg { rain_pos, bolt_pos }
    }
}

/// Session bootstrap: the assigned id, the current tick and seed, the
/// best survival times, and the hazards alive right now.
#[derive(Clone, Debug, PartialEq)]
pub struct NewGame {
    pub id: u64,
    pub server_tick: u64,
    pub rng_seed: u64,
    pub high_scores: Vec<(String, u64)>,
    pub objects: ObjectMsg,
}

impl NewGame {
    pub fn new(
        id: u64,
        server_tick: u64,
        rng_seed: u64,
        high_scores: Vec<(String, u64)>,
        objects: ObjectMsg,
    ) -> (m: NewGame)
        ensures
            m.id == id,
            m.server_tick == server_tick,
            m.rng_seed == rng_seed,
            m.high_scores == high_scores,
            m.objects == objects,
    {
        NewGame { id, server_tick, rng_seed, high_scores, objects }
    }
}

/// One player's full state, for the periodic roster snapshot.
#[derive(Clone, Debug, PartialEq)]
pub struct PlayerState {
    pub pos: Vec2i,
    pub target: Vec2i,
    pub score: usize,
    pub name: Option<String>,
    pub id: u64,
    pub time_alive: u64,
    pub alive: bool,
}

impl PlayerState {
    pub fn new(
        pos: Vec2i,
        target: Vec2i,
        score: usize,
        name: Option<String>,
        id: u64,
        time_alive: u64,
        alive: bool,
    ) -> (m: PlayerState)
        ensures
            m.pos == pos,
            m.target == target,
            m.score == score,
            m.name == name,
            m.id == id,
            m.time_alive == time_alive,
            m.alive == alive,
    {
        PlayerState { pos, target, score, name, id, time_alive, alive }
    }
}

/// A play session ended: by a damaging hazard (`win` false, with the
/// hazard's spawn tick) or by reaching the win threshold (`win` true).
#[derive(Clone, Debug, PartialEq)]
pub struct Damage {
    pub id: u64,
    pub tick: Option<u64>,
    pub secs_alive: u64,
    pub high_scores: Option<Vec<(String, u64)>>,
    pub pos: Vec2i,
    pub score: usize,
    pub win: bool,
}

impl Damage {
    pub fn new(
        id: u64,
        tick: Option<u64>,
        secs_alive: u64,
        high_scores: Option<Vec<(String, u64)>>,
        pos: Vec2i,
        score: usize,
        win: bool,
    ) -> (m: Damage)
        ensures
            m.id == id,
            m.tick == tick,
            m.secs_alive == secs_alive,
            m.high_scores == high_scores,
            m.pos == pos,
            m.score == score,
            m.win == win,
    {
        Damage { id, tick, secs_alive, high_scores, pos, score, win }
    }
}

/// A player's score after collecting a scoring hazard spawned on `tick`.
#[derive(Clone, Debug, PartialEq)]
pub struct Score {
    pub id: u64,
    pub score: usize,
    pub tick: u64,
}

impl Score {
    pub fn new(id: u64, score: usize, tick: u64) -> (m: Score)
        ensures
            m == (Score { id, score, tick }),
    {
        Score { id, score, tick }
    }
}

/// A newly named player joined.
#[derive(Clone, Debug, PartialEq)]
pub struct PlayerConnected {
    pub id: u64,
    pub name: String,
}

impl PlayerConnected {
    pub fn new(id: u64, name: String) -> (m: PlayerConnected)
        ensures
            m.id == id,
            m.name == name,
    {
        PlayerConnected { id, name }
    }
}

/// Everything the server pushes to clients.
#[derive(Clone, Debug, PartialEq)]
pub enum NetworkMessage {
    GameUpdate(Vec<NewPos>),
    GameState(Vec<PlayerState>),
    NewGame(NewGame),
    Ping,
    DamagePlayer(Damage),
    ScoreUpdate(Score),
    SyncClient(SyncMessage),
    PlayerConnected(PlayerConnected),
    PlayerDisconnected(u64),
}

/// Everything a client may send.
#[derive(Clone, Debug, PartialEq)]
pub enum ClientMessage {
    PlayerInput(PlayerInput),
    PlayerName(String),
}

/// Build the tick-adjustment notice for one client.
pub fn sync_msg(tick_adjustment: i64, server_tick: u64) -> (m: NetworkMessage)
    ensures
        m == NetworkMessage::SyncClient((SyncMessage { tick_adjustment, server_tick })),
{
    NetworkMessage::SyncClient(SyncMessage::new(tick_adjustment, server_tick))
}

/// Judge a freshly received input against the current tick: an input
/// for any other tick than the present one earns a sync notice with the
/// signed difference; an on-time input earns nothing.
pub fn sync_for_input(input_tick: u64, current_tick: u64) -> (r: Option<NetworkMessage>)
    requires
        input_tick <= i64::MAX as u64,
        current_tick <= i64::MAX as u64,
    ensures
        input_tick == current_tick <==> r is None,
        input_tick != current_tick ==> r == Some(
            NetworkMessage::SyncClient(
                (SyncMessage {
                    tick_adjustment: (input_tick as i64 - current_tick as i64) as i64,
                    server_tick: current_tick,
                }),
            ),
        ),
{
    if input_tick == current_tick {
        None
    } else {
        let adj = input_tick as i64 - current_tick as i64;
        Some(sync_msg(adj, current_tick))
    }
}

} // verus!
