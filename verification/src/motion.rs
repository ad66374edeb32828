//! Motion: how ball and paddle move during one frame.

use vstd::prelude::*;
use crate::geometry::{Playfield, Rect};
use crate::entities::{Ball, Paddle, PADDLE_SPEED};

verus! {

/// Longest frame time, in milliseconds, that is integrated; a longer frame
/// (a stall) counts as one of this length.
pub const MAX_DT_MS: i64 = 1000;

/// Milliseconds per second.
pub const MS_PER_SECOND: i64 = 1000;

/// The horizontal move requested for a frame.
#[derive(Clone, Copy, Debug, PartialEq, Eq, Structural)]
pub enum Steer {
    Left,
    Straight,
    Right,
}

impl Steer {
    /// -1 for left, 0 for no move, +1 for right.
    pub open spec fn sign(self) -> int {
        match self {
            Steer::Left => -1,
            Steer::Straight => 0,
            Steer::Right => 1,
        }
    }
}

/// A frame time brought into `0 ..= MAX_DT_MS`.
pub open spec fn clamped_dt(dt_ms: int) -> int {
    if dt_ms < 0 {
        0
    } else if dt_ms > MAX_DT_MS {
        MAX_DT_MS as int
    } else {
        dt_ms
    }
}

/// `v` brought into `lo ..= hi` (for `lo <= hi`).
pub open spec fn clamped(v: int, lo: int, hi: int) -> int {
    if v < lo {
        lo
    } else if v > hi {
        hi
    } else {
        v
    }
}

/// Frame times come from a wall clock and are not trusted: negative ones
/// count as zero, overlong ones as `MAX_DT_MS`.
pub fn clamp_dt(dt_ms: i64) -> (dt: i64)
    ensures
        dt == clamped_dt(dt_ms as int),
        0 <= dt <= MAX_DT_MS,
{
    if dt_ms < 0 {
        0
    } else if dt_ms > MAX_DT_MS {
        MAX_DT_MS
    } else {
        dt_ms
    }
}

impl Ball {
    /// The ball leaves through the bottom: it is at or below the lower edge
    /// (and not at or above the upper one, which is checked first).
    pub open spec fn exits(self, field: Playfield) -> bool {
        self.rect.y > 0 && self.rect.y >= field.height
    }

    /// The ball after the boundary check that precedes every move.  At or
    /// beyond the left, right or top edge it is put onto that edge and turned
    /// back into the field; the left edge is checked before the right one and
    /// the top before the bottom.  The bottom edge reflects nothing.
    pub open spec fn reflected(self, field: Playfield) -> Ball {
        let (x, dir_x) = if self.rect.x <= 0 {
            (0i64, 1i64)
        } else if self.rect.x >= field.width {
            (field.width, -1i64)
        } else {
            (self.rect.x, self.dir_x)
        };
        let (y, dir_y) = if self.rect.y <= 0 {
            (0i64, 1i64)
        } else {
            (self.rect.y, self.dir_y)
        };
        Ball { rect: Rect { x, y, ..self.rect }, dir_x, dir_y, ..self }
    }

    /// Distance travelled along each axis in a frame of `dt_ms` milliseconds.
    pub open spec fn stride(self, dt_ms: int) -> int {
        self.speed * clamped_dt(dt_ms) / (MS_PER_SECOND as int)
    }

    /// The ball after one frame: boundary check first, then, unless the ball
    /// has left through the bottom, a move by `stride` along the corrected
    /// direction.
    pub open spec fn advanced(self, field: Playfield, dt_ms: int) -> Ball {
        let b = self.reflected(field);
        if self.exits(field) {
            b
        } else {
            Ball {
                rect: Rect {
                    x: (b.rect.x + b.dir_x * self.stride(dt_ms)) as i64,
                    y: (b.rect.y + b.dir_y * self.stride(dt_ms)) as i64,
                    ..b.rect
                },
                ..b
            }
        }
    }

    /// Moves the ball by one frame and reports whether it left through the
    /// bottom of the playfield.
    pub fn advance(&mut self, field: Playfield, dt_ms: i64) -> (exited: bool)
        requires
            old(self).wf(),
            field.wf(),
        ensures
            exited == old(self).exits(field),
            *final(self) == old(self).advanced(field, dt_ms as int),
            final(self).wf(),
    {
        let dt: i64 = clamp_dt(dt_ms);
        proof {
            lemma_stride_bounded(self.speed as int, dt as int);
        }
        let stride: i64 = self.speed * dt / MS_PER_SECOND;
        if self.rect.x <= 0 {
            self.rect.x = 0;
            self.dir_x = 1;
        } else if self.rect.x >= field.width {
            self.rect.x = field.width;
            self.dir_x = -1;
        }
        if self.rect.y <= 0 {
            self.rect.y = 0;
            self.dir_y = 1;
        } else if self.rect.y >= field.height {
            return true;
        }
        proof {
            let s = old(self).stride(dt_ms as int);
            assert(s == stride);
            lemma_unit_times(self.dir_x as int, s);
            lemma_unit_times(self.dir_y as int, s);
        }
        if self.dir_x == 1 {
            self.rect.x = self.rect.x + stride;
        } else {
            self.rect.x = self.rect.x - stride;
        }
        if self.dir_y == 1 {
            self.rect.y = self.rect.y + stride;
        } else {
            self.rect.y = self.rect.y - stride;
        }
        false
    }
}

proof fn lemma_stride_bounded(speed: int, dt: int)
    requires
        0 <= speed,
        0 <= dt <= MAX_DT_MS,
    ensures
        0 <= speed * dt <= speed * MAX_DT_MS,
        0 <= speed * dt / (MS_PER_SECOND as int) <= speed,
        dt == 0 ==> speed * dt / (MS_PER_SECOND as int) == 0,
{
    assert(0 <= speed * dt <= speed * 1000) by (nonlinear_arith)
        requires
            0 <= speed,
            0 <= dt <= 1000,
    ;
    assert(dt == 0 ==> speed * dt == 0) by (nonlinear_arith);
}

proof fn lemma_unit_times(d: int, s: int)
    requires
        d == 1 || d == -1,
    ensures
        d * s == if d == 1 { s } else { -s },
{
    assert(1 * s == s);
    assert((-1) * s == -s);
}

impl Paddle {
    /// Distance the paddle travels in a frame of `dt_ms` milliseconds.
    pub open spec fn travel(dt_ms: int) -> int {
        PADDLE_SPEED * clamped_dt(dt_ms) / (MS_PER_SECOND as int)
    }

    /// Rightmost position at which the paddle still lies within the field
    /// (zero for a paddle wider than the field).
    pub open spec fn max_x(self, field: Playfield) -> int {
        if field.width - self.rect.w < 0 {
            0
        } else {
            field.width - self.rect.w
        }
    }

    /// The paddle after one frame: moved by `travel` in the requested
    /// direction, then brought back into the field.
    pub open spec fn slid(self, field: Playfield, steer: Steer, dt_ms: int) -> Paddle {
        Paddle {
            rect: Rect {
                x: clamped(
                    self.rect.x + steer.sign() * Paddle::travel(dt_ms),
                    0,
                    self.max_x(field),
                ) as i64,
                ..self.rect
            },
        }
    }

    /// Moves the paddle by one frame.  Its left edge never ends below zero
    /// and, where the paddle fits into the field at all, its right edge never
    /// beyond the field's width.
    pub fn slide(&mut self, field: Playfield, steer: Steer, dt_ms: i64)
        requires
            old(self).wf(),
            field.wf(),
        ensures
            *final(self) == old(self).slid(field, steer, dt_ms as int),
            final(self).wf(),
            0 <= final(self).rect.x <= old(self).max_x(field),
    {
        let dt: i64 = clamp_dt(dt_ms);
        let travel: i64 = PADDLE_SPEED * dt / MS_PER_SECOND;
        let target: i64 = match steer {
            Steer::Left => self.rect.x - travel,
            Steer::Straight => self.rect.x,
            Steer::Right => self.rect.x + travel,
        };
        let room: i64 = field.width - self.rect.w;
        let max_x: i64 = if room < 0 {
            0
        } else {
            room
        };
        self.rect.x = if target < 0 {
            0
        } else if target > max_x {
            max_x
        } else {
            target
        };
    }
}

/// A ball at or left of the left edge is put onto it and heads right.
pub proof fn lemma_left_edge_reflects(ball: Ball, field: Playfield, dt_ms: int)
    requires
        ball.rect.x <= 0,
    ensures
        ball.reflected(field).rect.x == 0,
        ball.reflected(field).dir_x == 1,
        ball.advanced(field, dt_ms).dir_x == 1,
{
}

/// A ball at or right of the right edge (and right of the left one) is put
/// onto it and heads left.
pub proof fn lemma_right_edge_reflects(ball: Ball, field: Playfield, dt_ms: int)
    requires
        ball.rect.x >= field.width,
        ball.rect.x > 0,
    ensures
        ball.reflected(field).rect.x == field.width,
        ball.reflected(field).dir_x == -1,
        ball.advanced(field, dt_ms).dir_x == -1,
{
}

/// A ball at or above the top edge is put onto it and heads down.
pub proof fn lemma_top_edge_reflects(ball: Ball, field: Playfield, dt_ms: int)
    requires
        ball.rect.y <= 0,
    ensures
        ball.reflected(field).rect.y == 0,
        ball.reflected(field).dir_y == 1,
        ball.advanced(field, dt_ms).dir_y == 1,
        !ball.exits(field),
{
}

/// After a reflection the ball moves away from the edge: its position after
/// the frame is the edge plus or minus the stride.
pub proof fn lemma_reflected_ball_moves_inward(ball: Ball, field: Playfield, dt_ms: int)
    requires
        ball.wf(),
        field.wf(),
        !ball.exits(field),
    ensures
        ball.rect.x <= 0 ==> ball.advanced(field, dt_ms).rect.x == ball.stride(dt_ms),
        ball.rect.x >= field.width && ball.rect.x > 0 ==> ball.advanced(field, dt_ms).rect.x
            == field.width - ball.stride(dt_ms),
        ball.rect.y <= 0 ==> ball.advanced(field, dt_ms).rect.y == ball.stride(dt_ms),
        0 <= ball.stride(dt_ms) <= ball.speed,
{
    lemma_stride_bounded(ball.speed as int, clamped_dt(dt_ms));
}

/// A ball at or below the bottom edge (and below the top one) leaves the
/// field whatever its direction, and is not moved.
pub proof fn lemma_bottom_edge_exits(ball: Ball, field: Playfield, dt_ms: int)
    requires
        ball.rect.y >= field.height,
        ball.rect.y > 0,
    ensures
        ball.exits(field),
        ball.advanced(field, dt_ms).rect.y == ball.rect.y,
        ball.advanced(field, dt_ms).dir_y == ball.dir_y,
{
}

/// A frame of no duration moves nothing: the ball is only put back onto the
/// edges, the paddle only back into the field.
pub proof fn lemma_zero_dt_moves_nothing(ball: Ball, paddle: Paddle, field: Playfield, steer: Steer)
    ensures
        ball.advanced(field, 0) == ball.reflected(field),
        paddle.slid(field, steer, 0).rect.x == clamped(paddle.rect.x as int, 0, paddle.max_x(field)),
{
    assert(ball.speed * 0 == 0);
    assert(ball.stride(0) == 0);
    assert(Paddle::travel(0) == 0);
    let b = ball.reflected(field);
    assert(b.dir_x * 0 == 0);
    assert(b.dir_y * 0 == 0);
    assert(steer.sign() * 0 == 0);
}

/// The direction components of a ball keep magnitude one through a frame.
pub proof fn lemma_direction_stays_unit(ball: Ball, field: Playfield, dt_ms: int)
    requires
        ball.wf(),
    ensures
        ball.advanced(field, dt_ms).dir_x == 1 || ball.advanced(field, dt_ms).dir_x == -1,
        ball.advanced(field, dt_ms).dir_y == 1 || ball.advanced(field, dt_ms).dir_y == -1,
{
}

/// A frame keeps a well-formed ball well formed.
pub proof fn lemma_advanced_wf(ball: Ball, field: Playfield, dt_ms: int)
    requires
        ball.wf(),
        field.wf(),
    ensures
        ball.advanced(field, dt_ms).wf(),
        ball.advanced(field, dt_ms).speed == ball.speed,
        ball.advanced(field, dt_ms).rect.w == ball.rect.w,
        ball.advanced(field, dt_ms).rect.h == ball.rect.h,
{
    lemma_stride_bounded(ball.speed as int, clamped_dt(dt_ms));
    let b = ball.reflected(field);
    lemma_unit_times(b.dir_x as int, ball.stride(dt_ms));
    lemma_unit_times(b.dir_y as int, ball.stride(dt_ms));
}

/// The paddle ends every frame inside the field: its left edge at or right
/// of zero and, where it fits at all, its right edge at or left of the
/// field's width.  Only its x-coordinate changes.
pub proof fn lemma_paddle_stays_in_field(paddle: Paddle, field: Playfield, steer: Steer, dt_ms: int)
    requires
        paddle.wf(),
        field.wf(),
    ensures
        paddle.slid(field, steer, dt_ms).wf(),
        0 <= paddle.slid(field, steer, dt_ms).rect.x,
        paddle.rect.w <= field.width ==> paddle.slid(field, steer, dt_ms).rect.x + paddle.rect.w
            <= field.width,
        paddle.slid(field, steer, dt_ms).rect.y == paddle.rect.y,
        paddle.slid(field, steer, dt_ms).rect.w == paddle.rect.w,
        paddle.slid(field, steer, dt_ms).rect.h == paddle.rect.h,
{
}

} // verus!
