//! What holds of a session over one frame and over any number of frames.

use vstd::prelude::*;
use crate::difficulty::{ball_speed_spec, paddle_width_spec};
use crate::entities::{inactive_count, is_unit, lemma_inactive_count_bounded};
use crate::motion::{lemma_advanced_wf, lemma_paddle_stays_in_field};
use crate::collision::{
    SCORE_PER_BRICK, first_hit, is_hit, lemma_cells_after_wf, lemma_first_hit_is_first,
    lemma_score_tracks_bricks,
};
use crate::game::{Frame, GameModel, Phase, frames_wf};

verus! {

/// One frame keeps a valid session valid.
pub proof fn lemma_tick_keeps_wf(model: GameModel, frame: Frame)
    requires
        model.wf(),
        frame.field.wf(),
    ensures
        model.ticked(frame).wf(),
{
    if model.phase == Phase::Running && !frame.intents.quit {
        let dt = frame.dt_ms as int;
        let s1 = model.steered(frame.field, frame.intents.steer, dt);
        lemma_paddle_stays_in_field(model.paddle, frame.field, frame.intents.steer, dt);
        lemma_inactive_count_bounded(model.cells);
        let s2 = s1.with_difficulty();
        assert(s2.wf());
        lemma_advanced_wf(s2.ball, frame.field, dt);
        let s3 = s2.ball_moved(frame.field, dt);
        assert(s3.wf());
        lemma_score_tracks_bricks(s3.cells, s3.ball.rect, s3.score);
        lemma_cells_after_wf(s3.cells, s3.ball.rect);
        lemma_first_hit_is_first(s3.cells, s3.ball.rect);
    }
}

/// Any number of frames keeps a valid session valid; in particular each
/// direction component of the ball keeps magnitude one.
pub proof fn lemma_play_keeps_wf(model: GameModel, frames: Seq<Frame>)
    requires
        model.wf(),
        frames_wf(frames),
    ensures
        model.played(frames).wf(),
        is_unit(model.played(frames).ball.dir_x as int),
        is_unit(model.played(frames).ball.dir_y as int),
    decreases frames.len(),
{
    if frames.len() > 0 {
        lemma_play_keeps_wf(model, frames.drop_last());
        lemma_tick_keeps_wf(model.played(frames.drop_last()), frames.last());
    }
}

/// What one frame leaves alone: no brick moves, appears or comes back, at
/// most one brick goes, the paddle keeps its height and its y-coordinate,
/// and the score grows by `SCORE_PER_BRICK` for each brick that went.
pub proof fn lemma_tick_frame_conditions(model: GameModel, frame: Frame)
    ensures
        model.ticked(frame).cells.len() == model.cells.len(),
        forall|k: int|
            0 <= k < model.cells.len() ==> (#[trigger] model.ticked(frame).cells[k]).rect
                == model.cells[k].rect,
        forall|k: int|
            0 <= k < model.cells.len() && !model.cells[k].is_active ==> !(
            #[trigger] model.ticked(frame).cells[k]).is_active,
        inactive_count(model.cells) <= inactive_count(model.ticked(frame).cells) <= inactive_count(
            model.cells,
        ) + 1,
        model.ticked(frame).score - model.score == SCORE_PER_BRICK * (inactive_count(
            model.ticked(frame).cells,
        ) - inactive_count(model.cells)),
        model.ticked(frame).paddle.rect.y == model.paddle.rect.y,
        model.ticked(frame).paddle.rect.h == model.paddle.rect.h,
{
    if model.phase == Phase::Running && !frame.intents.quit {
        let dt = frame.dt_ms as int;
        let s3 = model.steered(frame.field, frame.intents.steer, dt).with_difficulty().ball_moved(
            frame.field,
            dt,
        );
        assert(s3.cells == model.cells);
        assert(s3.score == model.score);
        lemma_score_tracks_bricks(s3.cells, s3.ball.rect, s3.score);
        lemma_first_hit_is_first(s3.cells, s3.ball.rect);
    }
}

/// Over any sequence of frames the score never shrinks, and it grows by
/// exactly `SCORE_PER_BRICK` times the number of bricks that went inactive.
pub proof fn lemma_score_monotone(model: GameModel, frames: Seq<Frame>)
    ensures
        model.played(frames).score >= model.score,
        inactive_count(model.played(frames).cells) >= inactive_count(model.cells),
        model.played(frames).score - model.score == SCORE_PER_BRICK * (inactive_count(
            model.played(frames).cells,
        ) - inactive_count(model.cells)),
    decreases frames.len(),
{
    if frames.len() > 0 {
        lemma_score_monotone(model, frames.drop_last());
        lemma_tick_frame_conditions(model.played(frames.drop_last()), frames.last());
    }
}

/// A brick that is gone stays gone, and no brick ever moves.
pub proof fn lemma_bricks_never_return(model: GameModel, frames: Seq<Frame>, k: int)
    requires
        0 <= k < model.cells.len(),
    ensures
        model.played(frames).cells.len() == model.cells.len(),
        model.played(frames).cells[k].rect == model.cells[k].rect,
        !model.cells[k].is_active ==> !model.played(frames).cells[k].is_active,
    decreases frames.len(),
{
    if frames.len() > 0 {
        lemma_bricks_never_return(model, frames.drop_last(), k);
        lemma_tick_frame_conditions(model.played(frames.drop_last()), frames.last());
    }
}

/// A session that is not running is not changed by any frames; in
/// particular a stopped session stays stopped.
pub proof fn lemma_stopped_is_final(model: GameModel, frames: Seq<Frame>)
    requires
        model.phase != Phase::Running,
    ensures
        model.played(frames) == model,
    decreases frames.len(),
{
    if frames.len() > 0 {
        lemma_stopped_is_final(model, frames.drop_last());
    }
}

/// A quit intent stops a running session and changes nothing else.
pub proof fn lemma_quit_stops(model: GameModel, frame: Frame)
    requires
        model.phase == Phase::Running,
        frame.intents.quit,
    ensures
        model.ticked(frame) == (GameModel { phase: Phase::Stopped, ..model }),
{
}

/// A running session whose ball is at or below the bottom edge (and below
/// the top one) is stopped after one frame, whatever the ball's direction,
/// the frame time and the intents.
pub proof fn lemma_bottom_exit_stops(model: GameModel, frame: Frame)
    requires
        model.phase == Phase::Running,
        model.ball.rect.y >= frame.field.height,
        model.ball.rect.y > 0,
    ensures
        model.ticked(frame).phase == Phase::Stopped,
{
}

/// A session only ever stops for one of two reasons: a quit intent, or the
/// ball leaving through the bottom.
pub proof fn lemma_stops_only_on_quit_or_exit(model: GameModel, frame: Frame)
    requires
        model.phase == Phase::Running,
        !frame.intents.quit,
        !model.ball.exits(frame.field),
    ensures
        model.ticked(frame).phase == Phase::Running,
{
}

/// The difficulty of a frame is that of the score at its start: the ball
/// moves at `ball_speed_spec` of that score and the paddle has
/// `paddle_width_spec` of it.
pub proof fn lemma_difficulty_applies_within_frame(model: GameModel, frame: Frame)
    requires
        model.wf(),
        frame.field.wf(),
        model.phase == Phase::Running,
        !frame.intents.quit,
    ensures
        model.ticked(frame).ball.speed == ball_speed_spec(model.score),
        model.ticked(frame).paddle.rect.w == paddle_width_spec(model.score),
{
    lemma_inactive_count_bounded(model.cells);
    let dt = frame.dt_ms as int;
    let s2 = model.steered(frame.field, frame.intents.steer, dt).with_difficulty();
    assert(s2.ball.speed == ball_speed_spec(model.score));
    let s3 = s2.ball_moved(frame.field, dt);
    assert(s3.ball.speed == s2.ball.speed);
    lemma_first_hit_is_first(s3.cells, s3.ball.rect);
}

/// Of two bricks that the ball overlaps when collisions are resolved, the
/// later one in row-major order survives the frame's collision pass.
pub proof fn lemma_one_brick_per_pass(model: GameModel, a: int, b: int)
    requires
        a < b,
        is_hit(model.cells, model.ball.rect, a),
        is_hit(model.cells, model.ball.rect, b),
    ensures
        first_hit(model.cells, model.ball.rect).is_some(),
        model.collided().cells[b].is_active,
        inactive_count(model.collided().cells) == inactive_count(model.cells) + 1,
        model.collided().score == model.score + SCORE_PER_BRICK,
{
    lemma_first_hit_is_first(model.cells, model.ball.rect);
    lemma_score_tracks_bricks(model.cells, model.ball.rect, model.score);
}

} // verus!
