//! Bootstrap and session lifecycle: idempotent world initialization,
//! player connect, and player disconnect.

use vstd::prelude::*;

use crate::world::Ball;
use crate::world::GameState;
use crate::world::GameStatus;
use crate::world::GameTickSchedule;
use crate::world::GameWorld;
use crate::world::PlayerInfo;
use crate::world::PlayerInput;
use crate::world::WorldView;
use crate::world::BALL_SPEED_X;
use crate::world::BALL_SPEED_Y;
use crate::world::TICK_INTERVAL_MICROS;
use crate::world::has_player;
use crate::world::player_index;
use crate::world::world_wf;

verus! {

/// What idempotent bootstrap does: create the missing singletons, and
/// register the periodic tick exactly when the game state was just created
/// and no registration exists yet.
pub open spec fn spec_ensure_game_exists(w: WorldView, now: u64) -> WorldView {
    let created = w.game_state is None;
    let w1 = if created {
        WorldView {
            game_state: Some(
                GameState {
                    score1: 0,
                    score2: 0,
                    status: GameStatus::Playing,
                    last_update: now,
                },
            ),
            ..w
        }
    } else {
        w
    };
    let w2 = if w1.ball is None {
        WorldView { ball: Some(Ball { x: 0, y: 0, vx: BALL_SPEED_X, vy: BALL_SPEED_Y }), ..w1 }
    } else {
        w1
    };
    if created && w2.schedule is None {
        WorldView {
            schedule: Some(GameTickSchedule { id: 0, interval_micros: TICK_INTERVAL_MICROS }),
            ..w2
        }
    } else {
        w2
    }
}

/// What a connect does: bootstrap if needed, then, unless the player is
/// already connected, append a side-membership record whose side is the
/// parity of the count of players connected before it, and a paddle record
/// centered at 0.
pub open spec fn spec_identity_connected(w: WorldView, sender: u64, now: u64) -> WorldView {
    let w1 = spec_ensure_game_exists(w, now);
    if has_player(w1.players, sender) {
        w1
    } else {
        let side = ((w1.players.len() % 2) + 1) as u8;
        WorldView {
            players: w1.players.push(PlayerInfo { player_id: sender, side }),
            inputs: w1.inputs.push(
                PlayerInput { player_id: sender, paddle_y: 0, last_update: now },
            ),
            ..w1
        }
    }
}

/// What a disconnect does: remove the player's side-membership and paddle
/// records if they exist, and nothing otherwise.
pub open spec fn spec_identity_disconnected(w: WorldView, sender: u64) -> WorldView {
    if has_player(w.players, sender) {
        let k = player_index(w.players, sender);
        WorldView { players: w.players.remove(k), inputs: w.inputs.remove(k), ..w }
    } else {
        w
    }
}

/// Idempotent bootstrap: if no game state exists, insert one with zero
/// scores in phase `Playing`; if no ball exists, insert one at the center
/// with the fixed initial velocity; if (and only if) the game state was
/// just created and no tick registration exists, register the periodic
/// tick. Re-invocation when everything exists changes nothing.
pub fn ensure_game_exists(world: &mut GameWorld, now: u64)
    requires
        world_wf(old(world)@),
    ensures
        final(world)@ == spec_ensure_game_exists(old(world)@, now),
        world_wf(final(world)@),
{
    let created = world.game_state.is_none();
    if created {
        world.game_state = Some(
            GameState { score1: 0, score2: 0, status: GameStatus::Playing, last_update: now },
        );
    }
    if world.ball.is_none() {
        world.ball = Some(Ball { x: 0, y: 0, vx: BALL_SPEED_X, vy: BALL_SPEED_Y });
    }
    if created && world.schedule.is_none() {
        world.schedule = Some(
            GameTickSchedule { id: 0, interval_micros: TICK_INTERVAL_MICROS },
        );
    }
    proof {
        assert(world@ =~= spec_ensure_game_exists(old(world)@, now));
    }
}

/// Process-start bootstrap entry point. Safe to invoke redundantly: it
/// only fills in whatever singletons are missing.
pub fn init(world: &mut GameWorld, now: u64)
    requires
        world_wf(old(world)@),
    ensures
        final(world)@ == spec_ensure_game_exists(old(world)@, now),
        world_wf(final(world)@),
{
    ensure_game_exists(world, now);
}

/// Index of the first side-membership record for `id`, if any.
fn find_player_index(players: &Vec<PlayerInfo>, id: u64) -> (r: Option<usize>)
    ensures
        match r {
            Some(i) => i < players@.len() && players@[i as int].player_id == id && forall|j: int|
                0 <= j < i ==> (#[trigger] players@[j]).player_id != id,
            None => !has_player(players@, id),
        },
{
    let mut i: usize = 0;
    while i < players.len()
        invariant
            i <= players@.len(),
            forall|j: int| 0 <= j < i ==> (#[trigger] players@[j]).player_id != id,
        decreases players@.len() - i,
    {
        if players[i].player_id == id {
            return Some(i);
        }
        i = i + 1;
    }
    None
}

/// Connect handler. Bootstraps the world if needed; a duplicate connect
/// is an idempotent no-op; otherwise the player joins side
/// `(count % 2) + 1`, counted over the players connected before it, with
/// a paddle centered at 0.
pub fn identity_connected(world: &mut GameWorld, sender: u64, now: u64)
    requires
        world_wf(old(world)@),
    ensures
        final(world)@ == spec_identity_connected(old(world)@, sender, now),
        world_wf(final(world)@),
{
    ensure_game_exists(world, now);
    let found = find_player_index(&world.players, sender);
    if found.is_some() {
        return ;
    }
    let count: usize = world.players.len();
    let side: u8 = ((count % 2) + 1) as u8;
    world.players.push(PlayerInfo { player_id: sender, side });
    world.inputs.push(PlayerInput { player_id: sender, paddle_y: 0, last_update: now });
    proof {
        assert(world@ =~= spec_identity_connected(old(world)@, sender, now));
    }
}

/// Disconnect handler. Removes the player's two records together; a
/// disconnect without a prior successful connect is an idempotent no-op,
/// never an error.
pub fn identity_disconnected(world: &mut GameWorld, sender: u64)
    requires
        world_wf(old(world)@),
    ensures
        final(world)@ == spec_identity_disconnected(old(world)@, sender),
        world_wf(final(world)@),
{
    let found = find_player_index(&world.players, sender);
    if let Some(i) = found {
        world.players.remove(i);
        world.inputs.remove(i);
        proof {
            let k = player_index(old(world)@.players, sender);
            assert(0 <= k < old(world)@.players.len() && old(world)@.players[k].player_id
                == sender);
            assert(k == i as int);
            assert(world@ =~= spec_identity_disconnected(old(world)@, sender));
        }
    }
}

} // verus!
