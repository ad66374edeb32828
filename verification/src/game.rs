//! The session: its state, the frame-by-frame orchestration and the data
//! handed to whoever paints it.

use vstd::prelude::*;
use crate::geometry::{Playfield, Rect};
use crate::difficulty::{ball_speed, ball_speed_spec, paddle_width, paddle_width_spec};
use crate::entities::{
    Ball, Brick, BrickGrid, Paddle, BRICK_COL_COUNT, BRICK_COUNT, ROWS_PER_BAND, cells_wf,
    inactive_count, initial_cells, lemma_inactive_count_bounded, lemma_initial_grid_all_active,
};
use crate::motion::Steer;
use crate::collision::{
    SCORE_PER_BRICK, ball_after, cells_after, first_hit, lemma_cells_after_wf,
    lemma_score_tracks_bricks, resolve_bricks, score_after,
};

verus! {

/// Where a session stands.  `Stopped` is final.
#[derive(Clone, Copy, Debug, PartialEq, Eq, Structural)]
pub enum Phase {
    /// Set up, not yet started.
    Ready,
    Running,
    Stopped,
}

/// What the player asks for during one frame.
#[derive(Clone, Copy, Debug, PartialEq, Eq, Structural)]
pub struct Intents {
    pub steer: Steer,
    pub quit: bool,
}

/// One frame as the driver sees it: the playfield, the time since the last
/// frame in milliseconds, and the player's intents.
#[derive(Clone, Copy, Debug, PartialEq, Eq, Structural)]
pub struct Frame {
    pub field: Playfield,
    pub dt_ms: i64,
    pub intents: Intents,
}

/// The whole state of a session.
#[derive(Clone, Debug)]
pub struct GameState {
    pub ball: Ball,
    pub paddle: Paddle,
    pub bricks: BrickGrid,
    pub phase: Phase,
    pub score: u64,
}

/// The mathematical value of a `GameState`.
pub struct GameModel {
    pub ball: Ball,
    pub paddle: Paddle,
    pub cells: Seq<Brick>,
    pub phase: Phase,
    pub score: int,
}

/// An active brick as the painter needs it: where it is and which colour
/// band its row belongs to.
#[derive(Clone, Copy, Debug, PartialEq, Eq, Structural)]
pub struct BrickSprite {
    pub rect: Rect,
    pub band: usize,
}

/// Everything needed to paint one frame.
#[derive(Clone, Debug)]
pub struct RenderSnapshot {
    pub ball_x: i64,
    pub ball_y: i64,
    pub ball_radius: i64,
    pub paddle: Rect,
    pub bricks: Vec<BrickSprite>,
    pub score: u64,
    pub field: Playfield,
}

impl GameModel {
    /// Ball, paddle and grid are well formed, and the score is
    /// `SCORE_PER_BRICK` for each brick that is gone.
    pub open spec fn wf(self) -> bool {
        &&& self.ball.wf()
        &&& self.paddle.wf()
        &&& cells_wf(self.cells)
        &&& self.score == SCORE_PER_BRICK * inactive_count(self.cells)
    }

    /// A fresh session on `field`: nothing has moved, no brick is gone, the
    /// score is zero and the loop has not started.
    pub open spec fn initial(field: Playfield) -> GameModel {
        GameModel {
            ball: Ball::initial(field),
            paddle: Paddle::initial(field),
            cells: initial_cells(),
            phase: Phase::Ready,
            score: 0,
        }
    }

    /// Starting moves a session from `Ready` to `Running` and does nothing
    /// in any other phase.
    pub open spec fn started(self) -> GameModel {
        if self.phase == Phase::Ready {
            GameModel { phase: Phase::Running, ..self }
        } else {
            self
        }
    }

    /// The paddle moves as steered; nothing else changes.
    pub open spec fn steered(self, field: Playfield, steer: Steer, dt_ms: int) -> GameModel {
        GameModel { paddle: self.paddle.slid(field, steer, dt_ms), ..self }
    }

    /// A quit intent stops the session and nothing else happens; otherwise
    /// the paddle moves as steered.
    pub open spec fn after_input(self, field: Playfield, intents: Intents, dt_ms: int) -> GameModel {
        if intents.quit {
            GameModel { phase: Phase::Stopped, ..self }
        } else {
            self.steered(field, intents.steer, dt_ms)
        }
    }

    /// Paddle width and ball speed follow the score.
    pub open spec fn with_difficulty(self) -> GameModel {
        GameModel {
            paddle: Paddle {
                rect: Rect { w: paddle_width_spec(self.score) as i64, ..self.paddle.rect },
            },
            ball: Ball { speed: ball_speed_spec(self.score) as i64, ..self.ball },
            ..self
        }
    }

    /// The ball moves by one frame; leaving through the bottom stops the session.
    pub open spec fn ball_moved(self, field: Playfield, dt_ms: int) -> GameModel {
        GameModel {
            ball: self.ball.advanced(field, dt_ms),
            phase: if self.ball.exits(field) {
                Phase::Stopped
            } else {
                self.phase
            },
            ..self
        }
    }

    /// The brick that the ball hits once the paddle check is done.
    pub open spec fn brick_hit(self) -> Option<int> {
        first_hit(self.cells, self.ball.rect)
    }

    /// Collision resolution: first the paddle, then at most one brick.
    pub open spec fn collided(self) -> GameModel {
        let hit = self.brick_hit();
        GameModel {
            ball: ball_after(self.ball.after_paddle(self.paddle), self.cells, hit),
            cells: cells_after(self.cells, hit),
            score: score_after(self.score, hit),
            ..self
        }
    }

    /// The simulation part of a frame, in this order: difficulty, ball
    /// motion, collisions.
    pub open spec fn updated(self, field: Playfield, dt_ms: int) -> GameModel {
        self.with_difficulty().ball_moved(field, dt_ms).collided()
    }

    /// One whole frame.  A session that is not running does not change.  A
    /// quit intent stops it before anything moves.  Otherwise the paddle
    /// moves, then the simulation runs.
    pub open spec fn ticked(self, frame: Frame) -> GameModel {
        if self.phase != Phase::Running {
            self
        } else if frame.intents.quit {
            GameModel { phase: Phase::Stopped, ..self }
        } else {
            self.steered(frame.field, frame.intents.steer, frame.dt_ms as int).updated(
                frame.field,
                frame.dt_ms as int,
            )
        }
    }

    /// The session after a sequence of frames, first to last.
    pub open spec fn played(self, frames: Seq<Frame>) -> GameModel
        decreases frames.len(),
    {
        if frames.len() == 0 {
            self
        } else {
            self.played(frames.drop_last()).ticked(frames.last())
        }
    }
}

/// Every frame of `frames` has a well-formed playfield.
pub open spec fn frames_wf(frames: Seq<Frame>) -> bool {
    forall|k: int| 0 <= k < frames.len() ==> (#[trigger] frames[k]).field.wf()
}

/// The sprite for cell `k` of a row-major grid.
pub open spec fn sprite_of(cells: Seq<Brick>, k: int) -> BrickSprite {
    BrickSprite {
        rect: cells[k].rect,
        band: (k / (BRICK_COL_COUNT as int) / (ROWS_PER_BAND as int)) as usize,
    }
}

/// The sprites of the active bricks among the first `n` cells, in row-major order.
pub open spec fn sprites_upto(cells: Seq<Brick>, n: int) -> Seq<BrickSprite>
    decreases n,
{
    if n <= 0 {
        Seq::empty()
    } else if cells[n - 1].is_active {
        sprites_upto(cells, n - 1).push(sprite_of(cells, n - 1))
    } else {
        sprites_upto(cells, n - 1)
    }
}

impl RenderSnapshot {
    /// The snapshot shows `model` on `field`: the centre and the radius of
    /// the ball, the paddle, a sprite for each active brick in row-major
    /// order, the score and the playfield.
    pub open spec fn depicts(&self, model: GameModel, field: Playfield) -> bool {
        &&& self.ball_x == model.ball.rect.x + model.ball.rect.w / 2
        &&& self.ball_y == model.ball.rect.y + model.ball.rect.h / 2
        &&& self.ball_radius == model.ball.rect.w / 2
        &&& self.paddle == model.paddle.rect
        &&& self.bricks@ == sprites_upto(model.cells, model.cells.len() as int)
        &&& self.score == model.score
        &&& self.field == field
    }
}

impl View for GameState {
    type V = GameModel;

    open spec fn view(&self) -> GameModel {
        GameModel {
            ball: self.ball,
            paddle: self.paddle,
            cells: self.bricks@,
            phase: self.phase,
            score: self.score as int,
        }
    }
}

impl GameState {
    /// Sets up a session on `field`.
    pub fn new(field: Playfield) -> (state: GameState)
        requires
            field.wf(),
        ensures
            state@ == GameModel::initial(field),
            state@.wf(),
    {
        proof {
            lemma_initial_grid_all_active();
        }
        GameState {
            ball: Ball::new(field),
            paddle: Paddle::new(field),
            bricks: Brick::make_grid(),
            phase: Phase::Ready,
            score: 0,
        }
    }

    /// Runtime test of validity, for callers that build or change a state by hand.
    pub fn is_valid(&self) -> (ok: bool)
        ensures
            ok == self@.wf(),
    {
        if !(self.ball.is_valid() && self.paddle.is_valid() && self.bricks.is_valid()) {
            return false;
        }
        let gone: usize = self.bricks.count_inactive();
        assert(gone <= BRICK_COUNT) by {
            lemma_inactive_count_bounded(self.bricks@);
        }
        self.score == SCORE_PER_BRICK * (gone as u64)
    }

    /// Whether the loop is to go on.
    pub fn is_running(&self) -> (running: bool)
        ensures
            running == (self.phase == Phase::Running),
    {
        match self.phase {
            Phase::Running => true,
            _ => false,
        }
    }

    /// Starts the loop: `Ready` becomes `Running`.
    pub fn start(&mut self)
        ensures
            final(self)@ == old(self)@.started(),
    {
        match self.phase {
            Phase::Ready => {
                self.phase = Phase::Running;
            },
            _ => {},
        }
    }

    /// Moves the paddle as steered.
    pub fn handle_paddle_input(&mut self, field: Playfield, steer: Steer, dt_ms: i64)
        requires
            old(self)@.wf(),
            field.wf(),
        ensures
            final(self)@ == old(self)@.steered(field, steer, dt_ms as int),
            final(self)@.wf(),
    {
        self.paddle.slide(field, steer, dt_ms);
    }

    /// Applies the player's intents: quitting stops the session, anything
    /// else steers the paddle.
    pub fn handle_input(&mut self, field: Playfield, intents: Intents, dt_ms: i64)
        requires
            old(self)@.wf(),
            field.wf(),
        ensures
            final(self)@ == old(self)@.after_input(field, intents, dt_ms as int),
            final(self)@.wf(),
    {
        if intents.quit {
            self.phase = Phase::Stopped;
        } else {
            self.handle_paddle_input(field, intents.steer, dt_ms);
        }
    }

    /// Sets paddle width and ball speed from the score.
    pub fn apply_difficulty(&mut self)
        requires
            old(self)@.wf(),
        ensures
            final(self)@ == old(self)@.with_difficulty(),
            final(self)@.wf(),
    {
        proof {
            lemma_inactive_count_bounded(self.bricks@);
        }
        self.paddle.rect.w = paddle_width(self.score);
        self.ball.speed = ball_speed(self.score);
    }

    /// Moves the ball by one frame; the session stops if it leaves through
    /// the bottom.
    pub fn update_ball_pos(&mut self, field: Playfield, dt_ms: i64)
        requires
            old(self)@.wf(),
            field.wf(),
        ensures
            final(self)@ == old(self)@.ball_moved(field, dt_ms as int),
            final(self)@.wf(),
    {
        let exited = self.ball.advance(field, dt_ms);
        if exited {
            self.phase = Phase::Stopped;
        }
    }

    /// Resolves the frame's collisions: the paddle sends the ball up, the
    /// first brick hit is removed and credited.
    pub fn handle_collision(&mut self)
        requires
            old(self)@.wf(),
        ensures
            final(self)@ == old(self)@.collided(),
            final(self)@.wf(),
    {
        proof {
            lemma_inactive_count_bounded(self.bricks@);
            lemma_score_tracks_bricks(self.bricks@, self.ball.rect, self.score as int);
            lemma_cells_after_wf(self.bricks@, self.ball.rect);
        }
        self.ball.bounce_off_paddle(&self.paddle);
        resolve_bricks(&mut self.ball, &mut self.bricks, &mut self.score);
    }

    /// The simulation part of a frame: difficulty, ball motion, collisions.
    pub fn update(&mut self, field: Playfield, dt_ms: i64)
        requires
            old(self)@.wf(),
            field.wf(),
        ensures
            final(self)@ == old(self)@.updated(field, dt_ms as int),
            final(self)@.wf(),
    {
        self.apply_difficulty();
        self.update_ball_pos(field, dt_ms);
        self.handle_collision();
    }

    /// The sprites of the bricks that are still active, in row-major order.
    pub fn draw_bricks(&self) -> (sprites: Vec<BrickSprite>)
        ensures
            sprites@ == sprites_upto(self.bricks@, self.bricks@.len() as int),
    {
        let mut sprites: Vec<BrickSprite> = Vec::new();
        let mut k: usize = 0;
        while k < self.bricks.cells.len()
            invariant
                k <= self.bricks.cells@.len(),
                sprites@ == sprites_upto(self.bricks@, k as int),
            decreases self.bricks.cells@.len() - k,
        {
            let brick = self.bricks.cells[k];
            if brick.is_active {
                sprites.push(BrickSprite { rect: brick.rect, band: k / BRICK_COL_COUNT / ROWS_PER_BAND });
            }
            k = k + 1;
        }
        sprites
    }

    /// What the painter needs for the current state: the ball's centre and
    /// radius, the paddle, the active bricks, the score and the playfield.
    pub fn draw(&self, field: Playfield) -> (shot: RenderSnapshot)
        requires
            self@.wf(),
        ensures
            shot.depicts(self@, field),
    {
        RenderSnapshot {
            ball_x: self.ball.rect.x + self.ball.rect.w / 2,
            ball_y: self.ball.rect.y + self.ball.rect.h / 2,
            ball_radius: self.ball.rect.w / 2,
            paddle: self.paddle.rect,
            bricks: self.draw_bricks(),
            score: self.score,
            field,
        }
    }

    /// Runs one frame and returns what is to be painted after it.  Nothing
    /// happens unless the session is running; a quit intent stops it;
    /// otherwise input, difficulty, motion and collisions are applied in
    /// that order.
    pub fn tick(&mut self, frame: Frame) -> (shot: RenderSnapshot)
        requires
            old(self)@.wf(),
            frame.field.wf(),
        ensures
            final(self)@ == old(self)@.ticked(frame),
            final(self)@.wf(),
            shot.depicts(final(self)@, frame.field),
    {
        if self.is_running() {
            self.handle_input(frame.field, frame.intents, frame.dt_ms);
            if !frame.intents.quit {
                self.update(frame.field, frame.dt_ms);
            }
        }
        self.draw(frame.field)
    }

    /// Starts the session and runs it through `frames`, first to last.
    /// Frames that follow the one on which the session stops change nothing.
    pub fn run(&mut self, frames: &Vec<Frame>)
        requires
            old(self)@.wf(),
            frames_wf(frames@),
        ensures
            final(self)@ == old(self)@.started().played(frames@),
            final(self)@.wf(),
    {
        self.start();
        let ghost begun = self@;
        let mut i: usize = 0;
        while i < frames.len()
            invariant
                i <= frames@.len(),
                frames_wf(frames@),
                self@.wf(),
                self@ == begun.played(frames@.take(i as int)),
            decreases frames@.len() - i,
        {
            proof {
                assert(frames@.take(i + 1).drop_last() =~= frames@.take(i as int));
                assert(frames@.take(i + 1).last() == frames@[i as int]);
            }
            self.tick(frames[i]);
            i = i + 1;
        }
        proof {
            assert(frames@.take(i as int) =~= frames@);
        }
    }
}

/// There is one sprite for each active brick: sprites and inactive bricks
/// together are as many as the cells.
pub proof fn lemma_sprites_count(cells: Seq<Brick>)
    ensures
        sprites_upto(cells, cells.len() as int).len() + inactive_count(cells) == cells.len(),
    decreases cells.len(),
{
    if cells.len() > 0 {
        let front = cells.drop_last();
        lemma_sprites_count(front);
        lemma_sprites_of_prefix(cells, front, front.len() as int);
    }
}

/// The sprites of the first `n` cells depend on those cells only.
proof fn lemma_sprites_of_prefix(cells: Seq<Brick>, front: Seq<Brick>, n: int)
    requires
        0 <= n <= front.len() <= cells.len(),
        forall|k: int| 0 <= k < front.len() ==> front[k] == cells[k],
    ensures
        sprites_upto(cells, n) == sprites_upto(front, n),
    decreases n,
{
    if n > 0 {
        lemma_sprites_of_prefix(cells, front, n - 1);
    }
}

/// Every sprite's band is that of a row of the grid, one of `0`, `1`, `2`
/// and `3`, and in a valid grid its rectangle is well formed.
pub proof fn lemma_sprite_bands(cells: Seq<Brick>, n: int, j: int)
    requires
        0 <= n <= cells.len() <= BRICK_COUNT,
        0 <= j < sprites_upto(cells, n).len(),
    ensures
        sprites_upto(cells, n)[j].band * ROWS_PER_BAND * BRICK_COL_COUNT < n,
        sprites_upto(cells, n)[j].band < 4,
        cells_wf(cells) ==> sprites_upto(cells, n)[j].rect.wf(),
    decreases n,
{
    if n > 0 {
        if cells[n - 1].is_active && j == sprites_upto(cells, n - 1).len() {
        } else {
            lemma_sprite_bands(cells, n - 1, j);
        }
    }
}

} // verus!
