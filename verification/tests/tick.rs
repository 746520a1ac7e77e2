//! Tick behavior: guards, ball motion, wall and paddle collisions,
//! scoring and reset.

use pong_module::paddle::move_paddle;
use pong_module::session::identity_connected;
use pong_module::session::init;
use pong_module::tick::game_tick;
use pong_module::world::Ball;
use pong_module::world::GameState;
use pong_module::world::GameStatus;
use pong_module::world::GameWorld;

const TRUSTED: u64 = 7;

fn playing_world() -> GameWorld {
    let mut w = GameWorld::new(TRUSTED);
    init(&mut w, 1);
    w
}

#[test]
fn scenario_untrusted_caller_changes_nothing() {
    let mut w = playing_world();
    let gs = w.game_state;
    let ball = w.ball;
    game_tick(&mut w, 8, true, 50);
    assert_eq!(w.game_state, gs);
    assert_eq!(w.ball, ball);
}

#[test]
fn tick_noop_when_not_playing() {
    for status in [GameStatus::Waiting, GameStatus::Paused, GameStatus::Finished] {
        let mut w = playing_world();
        w.game_state = Some(GameState { status, ..w.game_state.unwrap() });
        w.ball = Some(Ball { x: 123, y: -45, vx: 5, vy: -2 });
        let gs = w.game_state;
        let ball = w.ball;
        game_tick(&mut w, TRUSTED, true, 50);
        assert_eq!(w.game_state, gs);
        assert_eq!(w.ball, ball);
    }
}

#[test]
fn tick_noop_when_not_playing_even_with_maxed_scores() {
    let mut w = playing_world();
    w.game_state = Some(GameState {
        status: GameStatus::Paused,
        score1: u32::MAX,
        score2: u32::MAX,
        ..w.game_state.unwrap()
    });
    let gs = w.game_state;
    let ball = w.ball;
    game_tick(&mut w, TRUSTED, true, 50);
    assert_eq!(w.game_state, gs);
    assert_eq!(w.ball, ball);
}

#[test]
fn tick_noop_when_game_state_missing() {
    let mut w = playing_world();
    w.game_state = None;
    let ball = w.ball;
    game_tick(&mut w, TRUSTED, true, 50);
    assert_eq!(w.game_state, None);
    assert_eq!(w.ball, ball);
}

#[test]
fn tick_noop_when_ball_missing() {
    let mut w = playing_world();
    w.ball = None;
    let gs = w.game_state;
    game_tick(&mut w, TRUSTED, true, 50);
    assert_eq!(w.ball, None);
    assert_eq!(w.game_state, gs);
}

#[test]
fn tick_advances_ball_by_velocity() {
    let mut w = playing_world();
    game_tick(&mut w, TRUSTED, true, 50);
    let b = w.ball.unwrap();
    assert_eq!((b.x, b.y, b.vx, b.vy), (5, 2, 5, 2));
    let gs = w.game_state.unwrap();
    assert_eq!((gs.score1, gs.score2), (0, 0));
    assert_eq!(gs.last_update, 1);
}

#[test]
fn tick_reflects_off_top_wall() {
    let mut w = playing_world();
    w.ball = Some(Ball { x: 0, y: 239, vx: 5, vy: 2 });
    game_tick(&mut w, TRUSTED, true, 50);
    let b = w.ball.unwrap();
    assert_eq!((b.x, b.y, b.vx, b.vy), (5, 240, 5, -2));
}

#[test]
fn tick_reflects_off_bottom_wall() {
    let mut w = playing_world();
    w.ball = Some(Ball { x: 0, y: -239, vx: 5, vy: -2 });
    game_tick(&mut w, TRUSTED, true, 50);
    let b = w.ball.unwrap();
    assert_eq!((b.x, b.y, b.vx, b.vy), (5, -240, 5, 2));
}

#[test]
fn tick_right_paddle_hit_reflects_and_snaps() {
    let mut w = playing_world();
    identity_connected(&mut w, 101, 1);
    identity_connected(&mut w, 202, 2);
    w.ball = Some(Ball { x: 437, y: 0, vx: 5, vy: 0 });
    game_tick(&mut w, TRUSTED, true, 50);
    let b = w.ball.unwrap();
    assert_eq!((b.x, b.y, b.vx, b.vy), (430, 0, -5, 0));
    let gs = w.game_state.unwrap();
    assert_eq!((gs.score1, gs.score2), (0, 0));
}

#[test]
fn tick_left_paddle_hit_reflects_and_snaps() {
    let mut w = playing_world();
    identity_connected(&mut w, 101, 1);
    w.ball = Some(Ball { x: -437, y: 0, vx: -5, vy: 0 });
    game_tick(&mut w, TRUSTED, true, 50);
    let b = w.ball.unwrap();
    assert_eq!((b.x, b.y, b.vx, b.vy), (-430, 0, 5, 0));
    let gs = w.game_state.unwrap();
    assert_eq!((gs.score1, gs.score2), (0, 0));
}

#[test]
fn tick_paddle_misses_when_out_of_vertical_range() {
    let mut w = playing_world();
    identity_connected(&mut w, 101, 1);
    identity_connected(&mut w, 202, 2);
    move_paddle(&mut w, 202, 200, 9);
    w.ball = Some(Ball { x: 437, y: 0, vx: 5, vy: 0 });
    game_tick(&mut w, TRUSTED, true, 50);
    let b = w.ball.unwrap();
    assert_eq!((b.x, b.y, b.vx, b.vy), (442, 0, 5, 0));
}

#[test]
fn scenario_right_exit_scores_left_and_resets() {
    let mut w = playing_world();
    identity_connected(&mut w, 101, 1);
    identity_connected(&mut w, 202, 2);
    move_paddle(&mut w, 202, 200, 9);
    w.ball = Some(Ball { x: 495, y: 0, vx: 5, vy: 0 });
    game_tick(&mut w, TRUSTED, true, 50);
    let gs = w.game_state.unwrap();
    assert_eq!(gs.score1, 1);
    assert_eq!(gs.score2, 0);
    assert_eq!(gs.last_update, 50);
    let b = w.ball.unwrap();
    assert_eq!((b.x, b.y), (0, 0));
    assert_eq!((b.vx, b.vy), (-5, 2));
}

#[test]
fn left_exit_scores_right_and_resets() {
    let mut w = playing_world();
    w.ball = Some(Ball { x: -495, y: 0, vx: -5, vy: 0 });
    game_tick(&mut w, TRUSTED, false, 50);
    let gs = w.game_state.unwrap();
    assert_eq!(gs.score1, 0);
    assert_eq!(gs.score2, 1);
    let b = w.ball.unwrap();
    assert_eq!((b.x, b.y), (0, 0));
    assert_eq!((b.vx, b.vy), (5, -2));
}

#[test]
fn score_reset_vertical_sign_follows_coin_flip() {
    for (vy_up, expected_vy) in [(true, 2), (false, -2)] {
        let mut w = playing_world();
        w.ball = Some(Ball { x: 495, y: 0, vx: 5, vy: 0 });
        game_tick(&mut w, TRUSTED, vy_up, 50);
        assert_eq!(w.ball.unwrap().vy, expected_vy);
    }
}

#[test]
fn non_scoring_tick_keeps_game_state() {
    let mut w = playing_world();
    let gs = w.game_state;
    game_tick(&mut w, TRUSTED, true, 50);
    assert_eq!(w.game_state, gs);
}

#[test]
fn successive_scores_accumulate() {
    let mut w = playing_world();
    w.ball = Some(Ball { x: 495, y: 0, vx: 5, vy: 0 });
    game_tick(&mut w, TRUSTED, true, 50);
    w.ball = Some(Ball { x: 495, y: 0, vx: 5, vy: 0 });
    game_tick(&mut w, TRUSTED, true, 51);
    let gs = w.game_state.unwrap();
    assert_eq!((gs.score1, gs.score2), (2, 0));
}

#[test]
fn tick_does_not_touch_players() {
    let mut w = playing_world();
    identity_connected(&mut w, 101, 1);
    identity_connected(&mut w, 202, 2);
    let players = w.players.clone();
    let inputs = w.inputs.clone();
    game_tick(&mut w, TRUSTED, true, 50);
    assert_eq!(w.players, players);
    assert_eq!(w.inputs, inputs);
}
