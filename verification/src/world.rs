//! Record types and the in-memory world model for the game simulation.
//!
//! All geometry lives on a fixed-point grid: one court unit is split into
//! 100 steps, and every coordinate, length and velocity is an integer count
//! of those steps. The court is 10 units wide (1000 steps) and 5 units tall
//! (500 steps); the ball advances 0.05 units (5 steps) horizontally and
//! 0.02 units (2 steps) vertically per tick.

use vstd::prelude::*;

verus! {

/// Paddle height: 1 court unit.
pub const PADDLE_HEIGHT: i32 = 100;
/// Paddle width: 0.2 court units.
pub const PADDLE_WIDTH: i32 = 20;
/// Court height: 5 court units.
pub const COURT_HEIGHT: i32 = 500;
/// Court width: 10 court units.
pub const COURT_WIDTH: i32 = 1000;
/// Ball radius: 0.1 court units.
pub const BALL_RADIUS: i32 = 10;
/// Distance of each paddle line from the court center: 4.5 court units.
pub const PADDLE_X_OFFSET: i32 = 450;
/// Magnitude of the ball's horizontal velocity, in steps per tick.
pub const BALL_SPEED_X: i32 = 5;
/// Magnitude of the ball's vertical velocity, in steps per tick.
pub const BALL_SPEED_Y: i32 = 2;
/// Half of [`COURT_HEIGHT`].
pub const HALF_COURT_HEIGHT: i32 = 250;
/// Half of [`COURT_WIDTH`].
pub const HALF_COURT_WIDTH: i32 = 500;
/// Half of [`PADDLE_HEIGHT`].
pub const HALF_PADDLE_HEIGHT: i32 = 50;
/// Half of [`PADDLE_WIDTH`].
pub const HALF_PADDLE_WIDTH: i32 = 10;
/// A stored paddle center is clamped to `[-PADDLE_Y_LIMIT, PADDLE_Y_LIMIT]`:
/// half the court height less half the paddle height.
pub const PADDLE_Y_LIMIT: i32 = 200;
/// Interval of the periodic tick registration, in microseconds: about
/// 16 ms, or 60 ticks per second.
pub const TICK_INTERVAL_MICROS: i64 = 16000;

/// Coarse state of the match.
#[derive(Clone, Copy, Debug, PartialEq, Eq, Structural)]
pub enum GameStatus {
    Waiting,
    Playing,
    Paused,
    Finished,
}

/// Singleton match record: the two scores, the phase, and when the tick
/// path last wrote it.
#[derive(Clone, Copy, Debug, PartialEq, Eq, Structural)]
pub struct GameState {
    /// Score of side 1 (left).
    pub score1: u32,
    /// Score of side 2 (right).
    pub score2: u32,
    pub status: GameStatus,
    pub last_update: u64,
}

/// Side membership of one connected player.
#[derive(Clone, Copy, Debug, PartialEq, Eq, Structural)]
pub struct PlayerInfo {
    pub player_id: u64,
    /// 1 for left (odd connect order), 2 for right (even connect order).
    pub side: u8,
}

/// Paddle position of one connected player.
#[derive(Clone, Copy, Debug, PartialEq, Eq, Structural)]
pub struct PlayerInput {
    pub player_id: u64,
    /// Vertical center of this player's paddle, in fixed-point steps.
    pub paddle_y: i32,
    pub last_update: u64,
}

/// Singleton ball record: position and velocity in fixed-point steps.
#[derive(Clone, Copy, Debug, PartialEq, Eq, Structural)]
pub struct Ball {
    pub x: i32,
    pub y: i32,
    pub vx: i32,
    pub vy: i32,
}

/// The periodic tick registration; at most one is ever live.
#[derive(Clone, Copy, Debug, PartialEq, Eq, Structural)]
pub struct GameTickSchedule {
    pub id: u64,
    pub interval_micros: i64,
}

/// The whole authoritative world: the two singletons, the per-player
/// records, the tick registration, and the identity that the scheduling
/// facility uses when it invokes the tick.
///
/// `players` and `inputs` are kept index-aligned: entry `i` of both belongs
/// to the same player. That alignment is part of [`world_wf`].
pub struct GameWorld {
    pub game_state: Option<GameState>,
    pub ball: Option<Ball>,
    pub players: Vec<PlayerInfo>,
    pub inputs: Vec<PlayerInput>,
    pub schedule: Option<GameTickSchedule>,
    /// The trusted periodic-invocation identity: ticks reported as coming
    /// from any other identity are rejected.
    pub module_identity: u64,
}

/// Mathematical image of a [`GameWorld`].
#[verifier::ext_equal]
pub ghost struct WorldView {
    pub game_state: Option<GameState>,
    pub ball: Option<Ball>,
    pub players: Seq<PlayerInfo>,
    pub inputs: Seq<PlayerInput>,
    pub schedule: Option<GameTickSchedule>,
    pub module_identity: u64,
}

impl View for GameWorld {
    type V = WorldView;

    open spec fn view(&self) -> WorldView {
        WorldView {
            game_state: self.game_state,
            ball: self.ball,
            players: self.players@,
            inputs: self.inputs@,
            schedule: self.schedule,
            module_identity: self.module_identity,
        }
    }
}

/// A stored paddle center always lies within the court, paddle half-height
/// accounted for.
pub open spec fn paddle_y_in_range(y: int) -> bool {
    -PADDLE_Y_LIMIT <= y <= PADDLE_Y_LIMIT
}

/// Invariant of the ball record: speed components never exceed the fixed
/// magnitudes, and the center stays inside the court rectangle (goal
/// lines included).
pub open spec fn ball_wf(b: Ball) -> bool {
    &&& -BALL_SPEED_X <= b.vx <= BALL_SPEED_X
    &&& -BALL_SPEED_Y <= b.vy <= BALL_SPEED_Y
    &&& -HALF_COURT_WIDTH <= b.x <= HALF_COURT_WIDTH
    &&& -HALF_COURT_HEIGHT <= b.y <= HALF_COURT_HEIGHT
}

/// The two per-player tables have the same players at the same indices.
pub open spec fn players_aligned(players: Seq<PlayerInfo>, inputs: Seq<PlayerInput>) -> bool {
    &&& players.len() == inputs.len()
    &&& forall|i: int|
        0 <= i < players.len() ==> (#[trigger] players[i]).player_id == inputs[i].player_id
}

/// No player identifier occurs twice.
pub open spec fn player_ids_distinct(players: Seq<PlayerInfo>) -> bool {
    forall|i: int, j: int|
        0 <= i < j < players.len() ==> (#[trigger] players[i]).player_id != (#[trigger] players[j]).player_id
}

/// Every side-membership record names side 1 or side 2.
pub open spec fn sides_valid(players: Seq<PlayerInfo>) -> bool {
    forall|i: int|
        0 <= i < players.len() ==> ((#[trigger] players[i]).side == 1 || players[i].side == 2)
}

/// Every stored paddle center is within the clamping bounds.
pub open spec fn paddles_in_range(inputs: Seq<PlayerInput>) -> bool {
    forall|i: int| 0 <= i < inputs.len() ==> paddle_y_in_range((#[trigger] inputs[i]).paddle_y as int)
}

/// Well-formedness of the whole world; every handler establishes and
/// preserves it.
pub open spec fn world_wf(w: WorldView) -> bool {
    &&& players_aligned(w.players, w.inputs)
    &&& player_ids_distinct(w.players)
    &&& sides_valid(w.players)
    &&& paddles_in_range(w.inputs)
    &&& (w.ball matches Some(b) ==> ball_wf(b))
}

/// Whether bootstrap has completed: both singletons exist and the
/// periodic tick is registered.
pub open spec fn bootstrapped(w: WorldView) -> bool {
    &&& w.game_state is Some
    &&& w.ball is Some
    &&& w.schedule is Some
}

/// Whether a side-membership record for `id` exists.
pub open spec fn has_player(players: Seq<PlayerInfo>, id: u64) -> bool {
    exists|i: int| 0 <= i < players.len() && (#[trigger] players[i]).player_id == id
}

/// Index of the side-membership record for `id`; meaningful when
/// `has_player` holds and identifiers are distinct.
pub open spec fn player_index(players: Seq<PlayerInfo>, id: u64) -> int {
    choose|i: int| 0 <= i < players.len() && (#[trigger] players[i]).player_id == id
}

/// Whether a paddle record for `id` exists.
pub open spec fn has_input(inputs: Seq<PlayerInput>, id: u64) -> bool {
    exists|i: int| 0 <= i < inputs.len() && (#[trigger] inputs[i]).player_id == id
}

/// Index of the paddle record for `id`; meaningful when `has_input` holds
/// and identifiers are distinct.
pub open spec fn input_index(inputs: Seq<PlayerInput>, id: u64) -> int {
    choose|i: int| 0 <= i < inputs.len() && (#[trigger] inputs[i]).player_id == id
}

impl GameWorld {
    /// A world before bootstrap: no records, no players, no registration.
    pub fn new(module_identity: u64) -> (w: GameWorld)
        ensures
            w@ == (WorldView {
                game_state: None,
                ball: None,
                players: Seq::<PlayerInfo>::empty(),
                inputs: Seq::<PlayerInput>::empty(),
                schedule: None,
                module_identity,
            }),
            world_wf(w@),
    {
        let w = GameWorld {
            game_state: None,
            ball: None,
            players: Vec::new(),
            inputs: Vec::new(),
            schedule: None,
            module_identity,
        };
        proof {
            assert(w@.players =~= Seq::<PlayerInfo>::empty());
            assert(w@.inputs =~= Seq::<PlayerInput>::empty());
            assert(w@ =~= (WorldView {
                game_state: None,
                ball: None,
                players: Seq::<PlayerInfo>::empty(),
                inputs: Seq::<PlayerInput>::empty(),
                schedule: None,
                module_identity,
            }));
        }
        w
    }
}

} // verus!
