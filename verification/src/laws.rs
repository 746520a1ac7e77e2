//! System-wide laws, each proved once and for all against the transition
//! specifications: side assignment alternates with connection order,
//! disconnect exactly undoes connect, a non-`Playing` tick and an
//! untrusted tick change nothing, a paddle hit suppresses scoring, a goal
//! recenters the ball, stored paddles never leave the court, the
//! singletons persist once bootstrapped, and the two per-player tables
//! always hold the same players.

use vstd::prelude::*;

use crate::paddle::spec_move_paddle;
use crate::session::spec_ensure_game_exists;
use crate::session::spec_identity_connected;
use crate::session::spec_identity_disconnected;
use crate::tick::spec_ball_step;
use crate::tick::spec_game_tick;
use crate::world::Ball;
use crate::world::GameStatus;
use crate::world::PlayerInfo;
use crate::world::PlayerInput;
use crate::world::WorldView;
use crate::world::BALL_SPEED_X;
use crate::world::BALL_SPEED_Y;
use crate::world::bootstrapped;
use crate::world::has_input;
use crate::world::has_player;
use crate::world::input_index;
use crate::world::paddle_y_in_range;
use crate::world::paddles_in_range;
use crate::world::player_index;
use crate::world::world_wf;

verus! {

/// The world after connecting each of `ids` in order.
pub open spec fn spec_connect_seq(w: WorldView, ids: Seq<u64>, now: u64) -> WorldView
    decreases ids.len(),
{
    if ids.len() == 0 {
        w
    } else {
        spec_connect_seq(spec_identity_connected(w, ids[0], now), ids.skip(1), now)
    }
}

/// Connecting a sequence of distinct, not-yet-connected players appends
/// one side-membership record per player, in order, each assigned side
/// `(count % 2) + 1` over the count of players connected before it.
pub proof fn lemma_connect_seq_appends(w: WorldView, ids: Seq<u64>, now: u64)
    requires
        forall|i: int, j: int| 0 <= i < j < ids.len() ==> ids[i] != ids[j],
        forall|n: int| 0 <= n < ids.len() ==> !has_player(w.players, #[trigger] ids[n]),
    ensures
        spec_connect_seq(w, ids, now).players.len() == w.players.len() + ids.len(),
        forall|i: int|
            0 <= i < w.players.len() ==> spec_connect_seq(w, ids, now).players[i] == w.players[i],
        forall|n: int|
            0 <= n < ids.len() ==> spec_connect_seq(w, ids, now).players[w.players.len() + n] == (
            PlayerInfo {
                player_id: ids[n],
                side: (((w.players.len() + n) % 2) + 1) as u8,
            }),
    decreases ids.len(),
{
    if ids.len() != 0 {
        let w1 = spec_identity_connected(w, ids[0], now);
        let p0 = PlayerInfo { player_id: ids[0], side: ((w.players.len() % 2) + 1) as u8 };
        assert(spec_ensure_game_exists(w, now).players == w.players);
        assert(!has_player(w.players, ids[0]));
        assert(w1.players == w.players.push(p0));
        let tail = ids.skip(1);
        assert forall|n: int| 0 <= n < tail.len() implies !has_player(
            w1.players,
            #[trigger] tail[n],
        ) by {
            assert(tail[n] == ids[n + 1]);
            assert(!has_player(w.players, ids[n + 1]));
            assert(ids[0] != ids[n + 1]);
            assert forall|i: int| 0 <= i < w1.players.len() implies (#[trigger] w1.players[i]).player_id
                != ids[n + 1] by {
                if i < w.players.len() {
                    assert(w1.players[i] == w.players[i]);
                } else {
                    assert(w1.players[i] == p0);
                }
            }
        }
        assert forall|i: int, j: int| 0 <= i < j < tail.len() implies tail[i] != tail[j] by {
            assert(tail[i] == ids[i + 1] && tail[j] == ids[j + 1]);
        }
        lemma_connect_seq_appends(w1, tail, now);
        let r = spec_connect_seq(w, ids, now);
        assert(r == spec_connect_seq(w1, tail, now));
        assert forall|i: int| 0 <= i < w.players.len() implies r.players[i] == w.players[i] by {
            assert(r.players[i] == w1.players[i]);
            assert(w1.players[i] == w.players[i]);
        }
        assert forall|n: int| 0 <= n < ids.len() implies r.players[w.players.len() + n] == (
        PlayerInfo {
            player_id: ids[n],
            side: (((w.players.len() + n) % 2) + 1) as u8,
        }) by {
            if n == 0 {
                assert(r.players[w.players.len() as int] == w1.players[w.players.len() as int]);
                assert(w1.players[w.players.len() as int] == p0);
            } else {
                assert(r.players[w1.players.len() + (n - 1)] == (PlayerInfo {
                    player_id: tail[n - 1],
                    side: (((w1.players.len() + (n - 1)) % 2) + 1) as u8,
                }));
                assert(tail[n - 1] == ids[n]);
                assert(w1.players.len() + (n - 1) == w.players.len() + n);
            }
        }
    }
}

/// The Nth successful connect (1-indexed) is assigned side
/// `((N - 1) % 2) + 1`: starting from a world with no players, sides
/// alternate 1, 2, 1, 2, ... in connection order.
pub proof fn lemma_nth_connect_side(w: WorldView, ids: Seq<u64>, now: u64, n: int)
    requires
        w.players.len() == 0,
        forall|i: int, j: int| 0 <= i < j < ids.len() ==> ids[i] != ids[j],
        0 <= n < ids.len(),
    ensures
        spec_connect_seq(w, ids, now).players.len() == ids.len(),
        spec_connect_seq(w, ids, now).players[n].player_id == ids[n],
        spec_connect_seq(w, ids, now).players[n].side == (n % 2) + 1,
{
    lemma_connect_seq_appends(w, ids, now);
    assert(spec_connect_seq(w, ids, now).players[w.players.len() + n] == (PlayerInfo {
        player_id: ids[n],
        side: (((w.players.len() + n) % 2) + 1) as u8,
    }));
    assert(w.players.len() + n == n);
}

/// For every connect sequence — duplicates allowed, with each duplicate an
/// unsuccessful no-op — the side-membership list records the successful
/// connects in order, and the Nth of them (1-indexed) holds side
/// `((N - 1) % 2) + 1`.
pub proof fn lemma_sides_alternate_any_connects(w: WorldView, ids: Seq<u64>, now: u64)
    requires
        forall|k: int| 0 <= k < w.players.len() ==> (#[trigger] w.players[k]).side == (k % 2) + 1,
    ensures
        forall|k: int|
            0 <= k < spec_connect_seq(w, ids, now).players.len() ==> (#[trigger] spec_connect_seq(
                w,
                ids,
                now,
            ).players[k]).side == (k % 2) + 1,
    decreases ids.len(),
{
    if ids.len() != 0 {
        let w1 = spec_identity_connected(w, ids[0], now);
        assert forall|k: int| 0 <= k < w1.players.len() implies (#[trigger] w1.players[k]).side == (
        k % 2) + 1 by {
            assert(spec_ensure_game_exists(w, now).players == w.players);
            if has_player(w.players, ids[0]) {
                assert(w1.players == w.players);
            } else if k < w.players.len() {
                assert(w1.players[k] == w.players[k]);
            } else {
                assert(w1.players[k].side == ((w.players.len() % 2) + 1) as u8);
            }
        }
        lemma_sides_alternate_any_connects(w1, ids.skip(1), now);
        assert(spec_connect_seq(w, ids, now) == spec_connect_seq(w1, ids.skip(1), now));
    }
}

/// A connect for an already-connected player is an idempotent no-op on a
/// bootstrapped world: the unsuccessful connect takes no place in the
/// side-assignment order.
pub proof fn lemma_duplicate_connect_noop(w: WorldView, id: u64, now: u64)
    requires
        w.game_state is Some,
        w.ball is Some,
        has_player(w.players, id),
    ensures
        spec_identity_connected(w, id, now) == w,
{
}

/// Disconnect is the exact inverse of connect: connecting a fresh player
/// to a bootstrapped world and then disconnecting it restores the world
/// it started from.
pub proof fn lemma_disconnect_inverts_connect(w: WorldView, id: u64, now: u64)
    requires
        world_wf(w),
        w.game_state is Some,
        w.ball is Some,
        !has_player(w.players, id),
    ensures
        spec_identity_disconnected(spec_identity_connected(w, id, now), id) == w,
{
    let w1 = spec_identity_connected(w, id, now);
    assert(spec_ensure_game_exists(w, now) == w);
    let p = PlayerInfo { player_id: id, side: ((w.players.len() % 2) + 1) as u8 };
    assert(w1.players == w.players.push(p));
    let last = w.players.len() as int;
    assert(w1.players[last].player_id == id);
    assert(has_player(w1.players, id));
    let k = player_index(w1.players, id);
    assert(0 <= k < w1.players.len() && w1.players[k].player_id == id);
    if k < last {
        assert(w1.players[k] == w.players[k]);
        assert(has_player(w.players, id));
    }
    assert(k == last);
    assert(w1.players.remove(k) =~= w.players);
    assert(w1.inputs.remove(k) =~= w.inputs);
    assert(spec_identity_disconnected(w1, id) =~= w);
}

/// A tick in any phase other than `Playing` leaves the whole world — in
/// particular the ball and the game state — unchanged.
pub proof fn lemma_tick_not_playing_unchanged(w: WorldView, caller: u64, vy_up: bool, now: u64)
    requires
        w.game_state matches Some(g) && g.status != GameStatus::Playing,
    ensures
        spec_game_tick(w, caller, vy_up, now) == w,
{
}

/// A tick reported from any identity other than the trusted
/// periodic-invocation identity changes nothing.
pub proof fn lemma_tick_rejects_untrusted(w: WorldView, caller: u64, vy_up: bool, now: u64)
    requires
        caller != w.module_identity,
    ensures
        spec_game_tick(w, caller, vy_up, now) == w,
{
}

/// At most one of paddle hit and score event occurs per tick, and the two
/// sides never score together: a paddle hit always suppresses scoring.
pub proof fn lemma_hit_suppresses_score(
    players: Seq<PlayerInfo>,
    inputs: Seq<PlayerInput>,
    b: Ball,
    vy_up: bool,
)
    ensures
        ({
            let o = spec_ball_step(players, inputs, b, vy_up);
            !(o.hit && (o.score1 || o.score2)) && !(o.score1 && o.score2)
        }),
{
}

/// After any score event the ball recenters at (0, 0) with its fixed
/// speed magnitudes, the horizontal velocity directed toward the side
/// that just conceded and the vertical sign chosen by the coin flip.
pub proof fn lemma_score_resets_ball(
    players: Seq<PlayerInfo>,
    inputs: Seq<PlayerInput>,
    b: Ball,
    vy_up: bool,
)
    ensures
        ({
            let o = spec_ball_step(players, inputs, b, vy_up);
            (o.score1 || o.score2) ==> {
                &&& o.ball.x == 0
                &&& o.ball.y == 0
                &&& o.ball.vx == if b.vx > 0 {
                    -BALL_SPEED_X as int
                } else {
                    BALL_SPEED_X as int
                }
                &&& o.ball.vy == if vy_up {
                    BALL_SPEED_Y as int
                } else {
                    -BALL_SPEED_Y as int
                }
            }
        }),
{
}

/// Bootstrap from a world that has neither a game state nor a tick
/// registration creates every singleton: exactly one game state, one
/// ball, and one registration exist afterwards.
pub proof fn lemma_bootstrap_establishes_singletons(w: WorldView, now: u64)
    requires
        w.game_state is None,
        w.schedule is None,
    ensures
        bootstrapped(spec_ensure_game_exists(w, now)),
{
}

/// Once bootstrap has completed, every handler keeps both singletons and
/// the tick registration in existence: their cardinality stays exactly
/// one for the life of the world.
pub proof fn lemma_singletons_persist(
    w: WorldView,
    id: u64,
    y: i32,
    caller: u64,
    vy_up: bool,
    now: u64,
)
    requires
        bootstrapped(w),
    ensures
        bootstrapped(spec_ensure_game_exists(w, now)),
        bootstrapped(spec_identity_connected(w, id, now)),
        bootstrapped(spec_identity_disconnected(w, id)),
        bootstrapped(spec_move_paddle(w, id, y, now)),
        bootstrapped(spec_game_tick(w, caller, vy_up, now)),
{
}

/// The side-membership and paddle tables always hold exactly the same
/// players: neither record of a pair ever exists without the other.
pub proof fn lemma_side_and_paddle_key_sets_equal(w: WorldView, id: u64)
    requires
        world_wf(w),
    ensures
        has_player(w.players, id) <==> has_input(w.inputs, id),
{
    if has_player(w.players, id) {
        let i = player_index(w.players, id);
        assert(w.inputs[i].player_id == id);
        assert(has_input(w.inputs, id));
    }
    if has_input(w.inputs, id) {
        let i = input_index(w.inputs, id);
        assert(w.players[i].player_id == w.inputs[i].player_id);
        assert(has_player(w.players, id));
    }
}

/// An accepted paddle move stores a position within the court bounds, and
/// every other stored paddle stays within them: after any paddle move on
/// a well-formed world, every stored paddle is in
/// `[-PADDLE_Y_LIMIT, PADDLE_Y_LIMIT]`.
pub proof fn lemma_move_paddle_keeps_paddles_in_court(
    w: WorldView,
    sender: u64,
    new_y: i32,
    now: u64,
)
    requires
        world_wf(w),
    ensures
        paddles_in_range(spec_move_paddle(w, sender, new_y, now).inputs),
{
    let r = spec_move_paddle(w, sender, new_y, now);
    assert forall|i: int| 0 <= i < r.inputs.len() implies paddle_y_in_range(
        (#[trigger] r.inputs[i]).paddle_y as int,
    ) by {
        if crate::world::has_input(w.inputs, sender) {
            let k = crate::world::input_index(w.inputs, sender);
            if i != k {
                assert(r.inputs[i] == w.inputs[i]);
            }
        } else {
            assert(r.inputs[i] == w.inputs[i]);
        }
    }
}

} // verus!
