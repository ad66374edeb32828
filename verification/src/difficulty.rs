//! The difficulty curve: paddle width and ball speed as functions of the score.

use vstd::prelude::*;

verus! {

/// Paddle width at score zero.
pub const INITIAL_PADDLE_WIDTH: i64 = 150_000;

/// Ball speed at score zero.
pub const INITIAL_BALL_SPEED: i64 = 150_000;

/// Score at which the paddle has shrunk to nothing.
pub const SCORE_AT_MIN_PADDLE_WIDTH: u64 = 256_000;

/// Score at which the ball moves at twice its initial speed.
pub const SCORE_AT_MAX_BALL_SPEED: u64 = 76_800;

/// Largest speed a well-formed ball may have.
pub const SPEED_LIMIT: i64 = 0x1_0000_0000;

/// The paddle shrinks linearly with the score and never below zero.
pub open spec fn paddle_width_spec(score: int) -> int {
    let raw = INITIAL_PADDLE_WIDTH - INITIAL_PADDLE_WIDTH * score / (SCORE_AT_MIN_PADDLE_WIDTH as int);
    if raw < 0 {
        0
    } else {
        raw
    }
}

/// The ball accelerates linearly with the score, without a ceiling.
pub open spec fn ball_speed_spec(score: int) -> int {
    INITIAL_BALL_SPEED + INITIAL_BALL_SPEED * score / (SCORE_AT_MAX_BALL_SPEED as int)
}

/// Paddle width for a score; zero from `SCORE_AT_MIN_PADDLE_WIDTH` on.
pub fn paddle_width(score: u64) -> (width: i64)
    ensures
        width == paddle_width_spec(score as int),
        0 <= width <= INITIAL_PADDLE_WIDTH,
{
    if score >= SCORE_AT_MIN_PADDLE_WIDTH {
        0
    } else {
        let shrink: u64 = 150_000 * score / SCORE_AT_MIN_PADDLE_WIDTH;
        INITIAL_PADDLE_WIDTH - shrink as i64
    }
}

/// Ball speed for a score, wherever that speed can be represented.
pub fn ball_speed(score: u64) -> (speed: i64)
    requires
        ball_speed_spec(score as int) <= i64::MAX,
    ensures
        speed == ball_speed_spec(score as int),
        INITIAL_BALL_SPEED <= speed,
{
    let gain: u128 = 150_000 * (score as u128) / (SCORE_AT_MAX_BALL_SPEED as u128);
    INITIAL_BALL_SPEED + gain as i64
}

/// At score zero both parameters have their initial values.
pub proof fn lemma_difficulty_at_zero()
    ensures
        paddle_width_spec(0) == INITIAL_PADDLE_WIDTH,
        ball_speed_spec(0) == INITIAL_BALL_SPEED,
{
}

/// The paddle is gone at `SCORE_AT_MIN_PADDLE_WIDTH` and stays gone above it.
pub proof fn lemma_paddle_gone_at_cliff(score: int)
    requires
        score >= SCORE_AT_MIN_PADDLE_WIDTH,
    ensures
        paddle_width_spec(score) == 0,
{
}

/// At `SCORE_AT_MAX_BALL_SPEED` the ball moves at twice its initial speed.
pub proof fn lemma_ball_speed_doubles()
    ensures
        ball_speed_spec(SCORE_AT_MAX_BALL_SPEED as int) == 2 * INITIAL_BALL_SPEED,
{
}

/// A higher score never makes the paddle wider nor the ball slower.
pub proof fn lemma_difficulty_monotone(a: int, b: int)
    requires
        0 <= a <= b,
    ensures
        paddle_width_spec(b) <= paddle_width_spec(a),
        ball_speed_spec(a) <= ball_speed_spec(b),
{
}

} // verus!
