//! Paddle input handling: validate the caller and clamp the requested
//! vertical position into the court.

use vstd::prelude::*;

use crate::world::GameWorld;
use crate::world::PlayerInput;
use crate::world::WorldView;
use crate::world::PADDLE_Y_LIMIT;
use crate::world::has_input;
use crate::world::input_index;
use crate::world::paddle_y_in_range;
use crate::world::world_wf;

verus! {

/// Caller-visible outcome of a paddle move.
#[derive(Clone, Copy, Debug, PartialEq, Eq, Structural)]
pub enum MovePaddleResult {
    /// The paddle record was updated (to the clamped position).
    Accepted,
    /// No paddle record exists for the caller; nothing was changed. This
    /// is expected when a disconnect races a pending move.
    UnknownPlayer,
}

/// A requested paddle center, clamped into
/// `[-PADDLE_Y_LIMIT, PADDLE_Y_LIMIT]`.
pub open spec fn spec_clamp_paddle(y: int) -> int {
    if y < -PADDLE_Y_LIMIT {
        -PADDLE_Y_LIMIT as int
    } else if y > PADDLE_Y_LIMIT {
        PADDLE_Y_LIMIT as int
    } else {
        y
    }
}

/// What a paddle move does: if a paddle record for the caller exists,
/// overwrite its position with the clamped request and refresh its
/// timestamp; otherwise change nothing.
pub open spec fn spec_move_paddle(w: WorldView, sender: u64, new_y: i32, now: u64) -> WorldView {
    if has_input(w.inputs, sender) {
        let k = input_index(w.inputs, sender);
        WorldView {
            inputs: w.inputs.update(
                k,
                PlayerInput {
                    player_id: sender,
                    paddle_y: spec_clamp_paddle(new_y as int) as i32,
                    last_update: now,
                },
            ),
            ..w
        }
    } else {
        w
    }
}

/// Index of the first paddle record for `id`, if any.
fn find_input_index(inputs: &Vec<PlayerInput>, id: u64) -> (r: Option<usize>)
    ensures
        match r {
            Some(i) => i < inputs@.len() && inputs@[i as int].player_id == id && forall|j: int|
                0 <= j < i ==> (#[trigger] inputs@[j]).player_id != id,
            None => !has_input(inputs@, id),
        },
{
    let mut i: usize = 0;
    while i < inputs.len()
        invariant
            i <= inputs@.len(),
            forall|j: int| 0 <= j < i ==> (#[trigger] inputs@[j]).player_id != id,
        decreases inputs@.len() - i,
    {
        if inputs[i].player_id == id {
            return Some(i);
        }
        i = i + 1;
    }
    None
}

/// Paddle move handler. Succeeds exactly when a paddle record for the
/// caller exists; the stored position is the request clamped into
/// `[-PADDLE_Y_LIMIT, PADDLE_Y_LIMIT]`. An unknown caller changes
/// nothing and is told so.
pub fn move_paddle(world: &mut GameWorld, sender: u64, new_y: i32, now: u64) -> (r:
    MovePaddleResult)
    requires
        world_wf(old(world)@),
    ensures
        final(world)@ == spec_move_paddle(old(world)@, sender, new_y, now),
        world_wf(final(world)@),
        r == MovePaddleResult::Accepted <==> has_input(old(world)@.inputs, sender),
        r == MovePaddleResult::UnknownPlayer <==> !has_input(old(world)@.inputs, sender),
        has_input(old(world)@.inputs, sender) ==> final(world)@.inputs[input_index(
            old(world)@.inputs,
            sender,
        )].paddle_y as int == spec_clamp_paddle(new_y as int),
        has_input(old(world)@.inputs, sender) ==> paddle_y_in_range(
            final(world)@.inputs[input_index(old(world)@.inputs, sender)].paddle_y as int,
        ),
{
    let found = find_input_index(&world.inputs, sender);
    match found {
        Some(i) => {
            let clamped: i32 = if new_y < -PADDLE_Y_LIMIT {
                -PADDLE_Y_LIMIT
            } else if new_y > PADDLE_Y_LIMIT {
                PADDLE_Y_LIMIT
            } else {
                new_y
            };
            world.inputs[i] = PlayerInput { player_id: sender, paddle_y: clamped, last_update: now };
            proof {
                let k = input_index(old(world)@.inputs, sender);
                assert(0 <= k < old(world)@.inputs.len() && old(world)@.inputs[k].player_id
                    == sender);
                assert(old(world)@.inputs[k].player_id == old(world)@.players[k].player_id);
                assert(old(world)@.inputs[i as int].player_id == old(world)@.players[i
                    as int].player_id);
                assert(k == i as int);
                assert(world@ =~= spec_move_paddle(old(world)@, sender, new_y, now));
            }
            MovePaddleResult::Accepted
        },
        None => MovePaddleResult::UnknownPlayer,
    }
}

} // verus!
