//! The simulation tick: advance the ball, resolve wall and paddle
//! collisions, detect goals, and reset after a score.
//!
//! The tick runs only when the caller is the trusted periodic-invocation
//! identity, both singletons exist, and the phase is `Playing`; in every
//! other case it changes nothing.

use vstd::prelude::*;

use crate::world::Ball;
use crate::world::GameState;
use crate::world::GameStatus;
use crate::world::GameWorld;
use crate::world::PlayerInfo;
use crate::world::PlayerInput;
use crate::world::WorldView;
use crate::world::BALL_RADIUS;
use crate::world::BALL_SPEED_X;
use crate::world::BALL_SPEED_Y;
use crate::world::HALF_COURT_HEIGHT;
use crate::world::HALF_COURT_WIDTH;
use crate::world::HALF_PADDLE_HEIGHT;
use crate::world::HALF_PADDLE_WIDTH;
use crate::world::PADDLE_X_OFFSET;
use crate::world::ball_wf;
use crate::world::paddles_in_range;
use crate::world::world_wf;

verus! {

/// Everything one ball step decides: the new ball, whether a paddle was
/// hit, and which side (if either) scored.
pub ghost struct BallStepOutcome {
    pub ball: Ball,
    /// A paddle was hit; scoring is suppressed this tick.
    pub hit: bool,
    /// Side 1 (left) scored: the ball left the court on the right.
    pub score1: bool,
    /// Side 2 (right) scored: the ball left the court on the left.
    pub score2: bool,
}

/// Whether a paddle centered at `paddle_y` vertically overlaps a ball
/// centered at `ball_y`.
pub open spec fn y_overlaps_paddle(paddle_y: int, ball_y: int) -> bool {
    &&& ball_y + BALL_RADIUS > paddle_y - HALF_PADDLE_HEIGHT
    &&& ball_y - BALL_RADIUS < paddle_y + HALF_PADDLE_HEIGHT
}

/// Whether some player of `side` has a paddle that vertically overlaps
/// the ball.
pub open spec fn side_has_overlap(
    players: Seq<PlayerInfo>,
    inputs: Seq<PlayerInput>,
    side: u8,
    ball_y: int,
) -> bool {
    exists|i: int|
        0 <= i < players.len() && (#[trigger] players[i]).side == side && y_overlaps_paddle(
            inputs[i].paddle_y as int,
            ball_y,
        )
}

/// `v` clamped into `[lo, hi]`.
pub open spec fn spec_clamp(v: int, lo: int, hi: int) -> int {
    if v < lo {
        lo
    } else if v > hi {
        hi
    } else {
        v
    }
}

/// One physics step of the ball against the given paddles: advance by the
/// velocity, reflect off the horizontal walls (velocity sign flip plus a
/// clamp back inside), resolve at most one paddle hit, and, only when no
/// paddle was hit, detect a goal; after a goal the ball recenters with
/// fixed speed toward the side that conceded, the vertical sign chosen by
/// `vy_up`.
pub open spec fn spec_ball_step(
    players: Seq<PlayerInfo>,
    inputs: Seq<PlayerInput>,
    b: Ball,
    vy_up: bool,
) -> BallStepOutcome {
    let old_x = b.x as int;
    let x1 = b.x + b.vx;
    let y1 = b.y + b.vy;
    let wall = y1 + BALL_RADIUS > HALF_COURT_HEIGHT || y1 - BALL_RADIUS < -HALF_COURT_HEIGHT;
    let y2 = if wall {
        spec_clamp(y1, -HALF_COURT_HEIGHT + BALL_RADIUS, HALF_COURT_HEIGHT - BALL_RADIUS)
    } else {
        y1
    };
    let vy2 = if wall {
        -b.vy
    } else {
        b.vy as int
    };
    let left_cross = b.vx < 0 && old_x > -PADDLE_X_OFFSET && x1 - BALL_RADIUS <= -PADDLE_X_OFFSET
        + HALF_PADDLE_WIDTH;
    let hit_left = left_cross && side_has_overlap(players, inputs, 1, y2);
    let right_cross = !left_cross && b.vx > 0 && old_x < PADDLE_X_OFFSET && x1 + BALL_RADIUS
        >= PADDLE_X_OFFSET - HALF_PADDLE_WIDTH;
    let hit_right = right_cross && side_has_overlap(players, inputs, 2, y2);
    let hit = hit_left || hit_right;
    let x3 = if hit_left {
        -PADDLE_X_OFFSET + HALF_PADDLE_WIDTH + BALL_RADIUS
    } else if hit_right {
        PADDLE_X_OFFSET - HALF_PADDLE_WIDTH - BALL_RADIUS
    } else {
        x1
    };
    let vx3 = if hit {
        -b.vx
    } else {
        b.vx as int
    };
    let score2 = !hit && x3 - BALL_RADIUS < -HALF_COURT_WIDTH;
    let score1 = !hit && !score2 && x3 + BALL_RADIUS > HALF_COURT_WIDTH;
    let ball = if score1 || score2 {
        Ball {
            x: 0,
            y: 0,
            vx: if vx3 > 0 {
                (-BALL_SPEED_X) as i32
            } else {
                BALL_SPEED_X
            },
            vy: if vy_up {
                BALL_SPEED_Y
            } else {
                (-BALL_SPEED_Y) as i32
            },
        }
    } else {
        Ball { x: x3 as i32, y: y2 as i32, vx: vx3 as i32, vy: vy2 as i32 }
    };
    BallStepOutcome { ball, hit, score1, score2 }
}

/// The guards under which a tick actually simulates: trusted caller, both
/// singletons present, phase `Playing`.
pub open spec fn tick_runs(w: WorldView, caller: u64) -> bool {
    &&& caller == w.module_identity
    &&& w.game_state is Some
    &&& w.game_state->Some_0.status == GameStatus::Playing
    &&& w.ball is Some
}

/// What a tick does to the whole world: nothing unless [`tick_runs`];
/// otherwise one [`spec_ball_step`], with the scores and the game-state
/// timestamp updated exactly on a goal, and the ball written back in
/// every case.
pub open spec fn spec_game_tick(w: WorldView, caller: u64, vy_up: bool, now: u64) -> WorldView {
    if !tick_runs(w, caller) {
        w
    } else {
        let g = w.game_state->Some_0;
        let b = w.ball->Some_0;
        let o = spec_ball_step(w.players, w.inputs, b, vy_up);
        let g2 = if o.score1 || o.score2 {
            GameState {
                score1: if o.score1 {
                    (g.score1 + 1) as u32
                } else {
                    g.score1
                },
                score2: if o.score2 {
                    (g.score2 + 1) as u32
                } else {
                    g.score2
                },
                status: g.status,
                last_update: now,
            }
        } else {
            g
        };
        WorldView { game_state: Some(g2), ball: Some(o.ball), ..w }
    }
}

/// A ball step keeps the ball well-formed: fixed speed magnitudes, and a
/// position inside the court interior or exactly on a reset/snap point.
pub proof fn lemma_ball_step_preserves_wf(
    players: Seq<PlayerInfo>,
    inputs: Seq<PlayerInput>,
    b: Ball,
    vy_up: bool,
)
    requires
        ball_wf(b),
    ensures
        ball_wf(spec_ball_step(players, inputs, b, vy_up).ball),
{
}

/// Whether some player of `side` has a paddle vertically overlapping a
/// ball centered at `ball_y`.
fn side_overlap_exists(
    players: &Vec<PlayerInfo>,
    inputs: &Vec<PlayerInput>,
    side: u8,
    ball_y: i32,
) -> (r: bool)
    requires
        players@.len() == inputs@.len(),
        -300 <= ball_y <= 300,
        paddles_in_range(inputs@),
    ensures
        r == side_has_overlap(players@, inputs@, side, ball_y as int),
{
    let mut i: usize = 0;
    while i < players.len()
        invariant
            i <= players@.len(),
            players@.len() == inputs@.len(),
            -300 <= ball_y <= 300,
            paddles_in_range(inputs@),
            forall|j: int|
                0 <= j < i ==> !((#[trigger] players@[j]).side == side && y_overlaps_paddle(
                    inputs@[j].paddle_y as int,
                    ball_y as int,
                )),
        decreases players@.len() - i,
    {
        if players[i].side == side {
            let py: i32 = inputs[i].paddle_y;
            if ball_y + BALL_RADIUS > py - HALF_PADDLE_HEIGHT && ball_y - BALL_RADIUS < py
                + HALF_PADDLE_HEIGHT {
                return true;
            }
        }
        i = i + 1;
    }
    false
}

/// Tick handler. Rejects a caller other than the trusted
/// periodic-invocation identity, a missing singleton, and any phase but
/// `Playing`, each as a clean no-op; otherwise advances the ball one
/// step, updates the scores exactly on a goal, and writes the ball back.
/// `vy_up` is the coin flip that picks the vertical direction after a
/// goal reset.
pub fn game_tick(world: &mut GameWorld, caller: u64, vy_up: bool, now: u64)
    requires
        world_wf(old(world)@),
        tick_runs(old(world)@, caller) ==> old(world)@.game_state->Some_0.score1 < u32::MAX
            && old(world)@.game_state->Some_0.score2 < u32::MAX,
    ensures
        final(world)@ == spec_game_tick(old(world)@, caller, vy_up, now),
        world_wf(final(world)@),
{
    if caller != world.module_identity {
        return ;
    }
    if world.game_state.is_none() {
        return ;
    }
    let g: GameState = world.game_state.unwrap();
    if g.status != GameStatus::Playing {
        return ;
    }
    if world.ball.is_none() {
        return ;
    }
    let b: Ball = world.ball.unwrap();
    let old_x: i32 = b.x;
    let x1: i32 = b.x + b.vx;
    let y1: i32 = b.y + b.vy;
    let wall: bool = y1 + BALL_RADIUS > HALF_COURT_HEIGHT || y1 - BALL_RADIUS < -HALF_COURT_HEIGHT;
    let y2: i32 = if wall {
        let lo: i32 = -HALF_COURT_HEIGHT + BALL_RADIUS;
        let hi: i32 = HALF_COURT_HEIGHT - BALL_RADIUS;
        if y1 < lo {
            lo
        } else if y1 > hi {
            hi
        } else {
            y1
        }
    } else {
        y1
    };
    let vy2: i32 = if wall {
        -b.vy
    } else {
        b.vy
    };
    let left_cross: bool = b.vx < 0 && old_x > -PADDLE_X_OFFSET && x1 - BALL_RADIUS
        <= -PADDLE_X_OFFSET + HALF_PADDLE_WIDTH;
    let hit_left: bool = left_cross && side_overlap_exists(
        &world.players,
        &world.inputs,
        1,
        y2,
    );
    let right_cross: bool = !left_cross && b.vx > 0 && old_x < PADDLE_X_OFFSET && x1 + BALL_RADIUS
        >= PADDLE_X_OFFSET - HALF_PADDLE_WIDTH;
    let hit_right: bool = right_cross && side_overlap_exists(
        &world.players,
        &world.inputs,
        2,
        y2,
    );
    let hit: bool = hit_left || hit_right;
    let x3: i32 = if hit_left {
        -PADDLE_X_OFFSET + HALF_PADDLE_WIDTH + BALL_RADIUS
    } else if hit_right {
        PADDLE_X_OFFSET - HALF_PADDLE_WIDTH - BALL_RADIUS
    } else {
        x1
    };
    let vx3: i32 = if hit {
        -b.vx
    } else {
        b.vx
    };
    let score2: bool = !hit && x3 - BALL_RADIUS < -HALF_COURT_WIDTH;
    let score1: bool = !hit && !score2 && x3 + BALL_RADIUS > HALF_COURT_WIDTH;
    let scored: bool = score1 || score2;
    let new_ball: Ball = if scored {
        Ball {
            x: 0,
            y: 0,
            vx: if vx3 > 0 {
                -BALL_SPEED_X
            } else {
                BALL_SPEED_X
            },
            vy: if vy_up {
                BALL_SPEED_Y
            } else {
                -BALL_SPEED_Y
            },
        }
    } else {
        Ball { x: x3, y: y2, vx: vx3, vy: vy2 }
    };
    if scored {
        world.game_state = Some(
            GameState {
                score1: if score1 {
                    g.score1 + 1
                } else {
                    g.score1
                },
                score2: if score2 {
                    g.score2 + 1
                } else {
                    g.score2
                },
                status: g.status,
                last_update: now,
            },
        );
    }
    world.ball = Some(new_ball);
    proof {
        lemma_ball_step_preserves_wf(old(world)@.players, old(world)@.inputs, b, vy_up);
        assert(world@ =~= spec_game_tick(old(world)@, caller, vy_up, now));
    }
}

} // verus!
