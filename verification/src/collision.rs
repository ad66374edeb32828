//! Collision resolution: ball against paddle, ball against bricks.

use vstd::prelude::*;
use crate::geometry::Rect;
use crate::entities::{Ball, Brick, BrickGrid, Paddle, cells_wf, inactive_count, lemma_deactivate_counts_one};

verus! {

/// Points credited for each brick destroyed.
pub const SCORE_PER_BRICK: u64 = 1000;

/// Which axis of the ball's direction a brick hit reflects.
#[derive(Clone, Copy, Debug, PartialEq, Eq, Structural)]
pub enum HitKind {
    /// The vertical component flips.
    Vertical,
    /// The horizontal component flips.
    Horizontal,
}

/// A hit is vertical when the offset `(dx, dy)` between the two centres,
/// scaled to length one, has a vertical component of magnitude at least one
/// quarter: `|dy| / sqrt(dx² + dy²) >= 1/4`, that is `16·dy² >= dx² + dy²`.
/// Coinciding centres (offset zero) count as a vertical hit.
pub open spec fn is_vertical_hit(dx: int, dy: int) -> bool {
    16 * (dy * dy) >= dx * dx + dy * dy
}

/// The kind of a hit with centre offset `(dx, dy)`.
pub open spec fn hit_kind(dx: int, dy: int) -> HitKind {
    if is_vertical_hit(dx, dy) {
        HitKind::Vertical
    } else {
        HitKind::Horizontal
    }
}

/// Classifies a hit from the offset between ball centre and brick centre.
/// Only the direction of the offset matters, not its length.
pub fn classify_hit(dx: i64, dy: i64) -> (kind: HitKind)
    ensures
        kind == hit_kind(dx as int, dy as int),
{
    proof {
        lemma_square_bounded(dx as int);
        lemma_square_bounded(dy as int);
    }
    let xx: i128 = (dx as i128) * (dx as i128);
    let yy: i128 = (dy as i128) * (dy as i128);
    if yy >= (xx + 14) / 15 {
        HitKind::Vertical
    } else {
        HitKind::Horizontal
    }
}

proof fn lemma_square_bounded(v: int)
    requires
        -0x8000_0000_0000_0000 <= v <= 0x8000_0000_0000_0000,
    ensures
        0 <= v * v <= 0x4000_0000_0000_0000_0000_0000_0000_0000,
{
    assert(0 <= v * v <= 0x8000_0000_0000_0000 * 0x8000_0000_0000_0000) by (nonlinear_arith)
        requires
            -0x8000_0000_0000_0000 <= v <= 0x8000_0000_0000_0000,
    ;
}

impl Ball {
    /// The ball after the paddle check: heading up if the two boxes overlap,
    /// unchanged otherwise.
    pub open spec fn after_paddle(self, paddle: Paddle) -> Ball {
        if paddle.rect.overlaps_spec(self.rect) {
            Ball { dir_y: -1i64, ..self }
        } else {
            self
        }
    }

    /// The ball after hitting a brick with bounding box `brick`: one direction
    /// component has changed sign, chosen by `hit_kind` of the centre offset.
    pub open spec fn after_brick(self, brick: Rect) -> Ball {
        let dx = self.rect.center2_x() - brick.center2_x();
        let dy = self.rect.center2_y() - brick.center2_y();
        match hit_kind(dx, dy) {
            HitKind::Vertical => Ball { dir_y: (-self.dir_y) as i64, ..self },
            HitKind::Horizontal => Ball { dir_x: (-self.dir_x) as i64, ..self },
        }
    }

    /// Ball against paddle: always sends the ball upward, whatever the point
    /// of contact.
    pub fn bounce_off_paddle(&mut self, paddle: &Paddle) -> (touched: bool)
        ensures
            touched == paddle.rect.overlaps_spec(old(self).rect),
            *final(self) == old(self).after_paddle(*paddle),
    {
        let touched = paddle.rect.overlaps(&self.rect);
        if touched {
            self.dir_y = -1;
        }
        touched
    }

    /// Ball against one brick: reflects the ball vertically or horizontally.
    pub fn deflect_off_brick(&mut self, brick: &Rect) -> (kind: HitKind)
        requires
            old(self).wf(),
            brick.wf(),
        ensures
            *final(self) == old(self).after_brick(*brick),
            final(self).wf(),
            kind == hit_kind(
                old(self).rect.center2_x() - brick.center2_x(),
                old(self).rect.center2_y() - brick.center2_y(),
            ),
    {
        let ball_mid: (i64, i64) = self.rect.center2();
        let brick_mid: (i64, i64) = brick.center2();
        let kind = classify_hit(ball_mid.0 - brick_mid.0, ball_mid.1 - brick_mid.1);
        match kind {
            HitKind::Vertical => {
                self.dir_y = -self.dir_y;
            },
            HitKind::Horizontal => {
                self.dir_x = -self.dir_x;
            },
        }
        kind
    }
}

/// Cell `k` is an active brick whose box overlaps `ball`.
pub open spec fn is_hit(cells: Seq<Brick>, ball: Rect, k: int) -> bool {
    &&& 0 <= k < cells.len()
    &&& cells[k].is_active
    &&& ball.overlaps_spec(cells[k].rect)
}

/// Index of the first hit at or after `from`, or `cells.len()` if there is none.
pub open spec fn first_hit_from(cells: Seq<Brick>, ball: Rect, from: int) -> int
    decreases cells.len() - from,
{
    if from < 0 || from >= cells.len() {
        cells.len() as int
    } else if is_hit(cells, ball, from) {
        from
    } else {
        first_hit_from(cells, ball, from + 1)
    }
}

/// The first cell in row-major order that the ball hits, if any.
pub open spec fn first_hit(cells: Seq<Brick>, ball: Rect) -> Option<int> {
    let k = first_hit_from(cells, ball, 0);
    if k < cells.len() {
        Some(k)
    } else {
        None
    }
}

/// The grid after the brick at `hit`, if any, has been deactivated.
pub open spec fn cells_after(cells: Seq<Brick>, hit: Option<int>) -> Seq<Brick> {
    match hit {
        Some(k) => cells.update(k, Brick { rect: cells[k].rect, is_active: false }),
        None => cells,
    }
}

/// The ball after being deflected by the brick at `hit`, if any.
pub open spec fn ball_after(ball: Ball, cells: Seq<Brick>, hit: Option<int>) -> Ball {
    match hit {
        Some(k) => ball.after_brick(cells[k].rect),
        None => ball,
    }
}

/// The score after the brick at `hit`, if any, has been credited.
pub open spec fn score_after(score: int, hit: Option<int>) -> int {
    match hit {
        Some(_) => score + SCORE_PER_BRICK,
        None => score,
    }
}

/// Scans the grid in row-major order for the first active brick that
/// overlaps `ball`.
pub fn find_first_hit(grid: &BrickGrid, ball: &Rect) -> (hit: Option<usize>)
    ensures
        match hit {
            Some(k) => first_hit(grid@, *ball) == Some(k as int),
            None => first_hit(grid@, *ball) == None::<int>,
        },
{
    let mut k: usize = 0;
    while k < grid.cells.len()
        invariant
            k <= grid.cells@.len(),
            first_hit_from(grid@, *ball, 0) == first_hit_from(grid@, *ball, k as int),
        decreases grid.cells@.len() - k,
    {
        let brick = grid.cells[k];
        if brick.is_active && ball.overlaps(&brick.rect) {
            return Some(k);
        }
        k = k + 1;
    }
    None
}

/// Ball against bricks.  The first active brick in row-major order that the
/// ball overlaps is deactivated, the score grows by `SCORE_PER_BRICK` and the
/// ball is deflected; no other brick is touched.  Without such a brick
/// nothing changes.  Returns the index of the brick that was hit.
pub fn resolve_bricks(ball: &mut Ball, grid: &mut BrickGrid, score: &mut u64) -> (hit: Option<
    usize,
>)
    requires
        old(ball).wf(),
        old(grid).wf(),
        *old(score) <= u64::MAX - SCORE_PER_BRICK,
    ensures
        match hit {
            Some(k) => first_hit(old(grid)@, old(ball).rect) == Some(k as int),
            None => first_hit(old(grid)@, old(ball).rect) == None::<int>,
        },
        final(grid)@ == cells_after(old(grid)@, first_hit(old(grid)@, old(ball).rect)),
        *final(ball) == ball_after(
            *old(ball),
            old(grid)@,
            first_hit(old(grid)@, old(ball).rect),
        ),
        *final(score) == score_after(
            *old(score) as int,
            first_hit(old(grid)@, old(ball).rect),
        ),
        final(ball).wf(),
        final(grid).wf(),
{
    let hit = find_first_hit(grid, &ball.rect);
    match hit {
        Some(k) => {
            let brick = grid.cells[k];
            grid.cells.set(k, Brick { rect: brick.rect, is_active: false });
            *score = *score + SCORE_PER_BRICK;
            ball.deflect_off_brick(&brick.rect);
        },
        None => {},
    }
    hit
}

/// The brick that is hit is an active one that overlaps the ball, and no
/// brick before it in row-major order is.
pub proof fn lemma_first_hit_is_first(cells: Seq<Brick>, ball: Rect)
    ensures
        match first_hit(cells, ball) {
            Some(k) => is_hit(cells, ball, k) && forall|j: int| 0 <= j < k ==> !is_hit(cells, ball, j),
            None => forall|j: int| !is_hit(cells, ball, j),
        },
{
    lemma_first_hit_from(cells, ball, 0);
}

proof fn lemma_first_hit_from(cells: Seq<Brick>, ball: Rect, from: int)
    requires
        0 <= from,
    ensures
        from <= first_hit_from(cells, ball, from) || from >= cells.len(),
        first_hit_from(cells, ball, from) <= cells.len(),
        first_hit_from(cells, ball, from) < cells.len() ==> is_hit(
            cells,
            ball,
            first_hit_from(cells, ball, from),
        ),
        forall|j: int| from <= j < first_hit_from(cells, ball, from) ==> !is_hit(cells, ball, j),
    decreases cells.len() - from,
{
    if from < cells.len() && !is_hit(cells, ball, from) {
        lemma_first_hit_from(cells, ball, from + 1);
    }
}

/// One pass deactivates at most one brick: every cell but the one that was
/// hit is left exactly as it was, and the one that was hit keeps its place.
pub proof fn lemma_at_most_one_brick(cells: Seq<Brick>, ball: Rect)
    ensures
        cells_after(cells, first_hit(cells, ball)).len() == cells.len(),
        forall|j: int|
            0 <= j < cells.len() && first_hit(cells, ball) != Some(j) ==> cells_after(
                cells,
                first_hit(cells, ball),
            )[j] == cells[j],
        forall|j: int|
            first_hit(cells, ball) == Some(j) ==> cells[j].is_active && !cells_after(
                cells,
                first_hit(cells, ball),
            )[j].is_active && cells_after(cells, first_hit(cells, ball))[j].rect == cells[j].rect,
{
    lemma_first_hit_is_first(cells, ball);
}

/// Of two bricks that the ball overlaps at once, only the earlier one in
/// row-major order can be the one that is deactivated.
pub proof fn lemma_earlier_brick_wins(cells: Seq<Brick>, ball: Rect, a: int, b: int)
    requires
        a < b,
        is_hit(cells, ball, a),
        is_hit(cells, ball, b),
    ensures
        first_hit(cells, ball).is_some(),
        first_hit(cells, ball).unwrap() <= a,
        cells_after(cells, first_hit(cells, ball))[b].is_active,
{
    lemma_first_hit_is_first(cells, ball);
}

/// The score grows by exactly `SCORE_PER_BRICK` for each brick that a pass
/// deactivates, and never shrinks.
pub proof fn lemma_score_tracks_bricks(cells: Seq<Brick>, ball: Rect, score: int)
    ensures
        score_after(score, first_hit(cells, ball)) - score == SCORE_PER_BRICK * (inactive_count(
            cells_after(cells, first_hit(cells, ball)),
        ) - inactive_count(cells)),
        score_after(score, first_hit(cells, ball)) >= score,
        inactive_count(cells_after(cells, first_hit(cells, ball))) >= inactive_count(cells),
{
    lemma_first_hit_is_first(cells, ball);
    match first_hit(cells, ball) {
        Some(k) => {
            lemma_deactivate_counts_one(cells, k);
        },
        None => {},
    }
}

/// A pass keeps a valid grid valid.
pub proof fn lemma_cells_after_wf(cells: Seq<Brick>, ball: Rect)
    requires
        cells_wf(cells),
    ensures
        cells_wf(cells_after(cells, first_hit(cells, ball))),
{
    lemma_first_hit_is_first(cells, ball);
}

/// A brick hit changes the sign of exactly one direction component and
/// nothing else, so each component keeps magnitude one.
pub proof fn lemma_brick_hit_flips_one_axis(ball: Ball, brick: Rect)
    requires
        ball.wf(),
    ensures
        ball.after_brick(brick).rect == ball.rect,
        ball.after_brick(brick).speed == ball.speed,
        (ball.after_brick(brick).dir_y == -ball.dir_y && ball.after_brick(brick).dir_x
            == ball.dir_x) || (ball.after_brick(brick).dir_x == -ball.dir_x && ball.after_brick(
            brick,
        ).dir_y == ball.dir_y),
        ball.after_brick(brick).wf(),
{
}

/// A brick straight above or below the ball gives a vertical hit, a brick
/// straight beside it a horizontal one.
pub proof fn lemma_axis_aligned_hits(d: int)
    requires
        d != 0,
    ensures
        hit_kind(0, d) == HitKind::Vertical,
        hit_kind(d, 0) == HitKind::Horizontal,
{
    assert(d * d > 0) by (nonlinear_arith)
        requires
            d != 0,
    ;
    assert(0 * 0 == 0);
}

} // verus!
