//! The things on the playfield: ball, paddle, bricks and the brick grid.

use vstd::prelude::*;
use crate::geometry::{Playfield, Rect};
use crate::difficulty::{INITIAL_BALL_SPEED, INITIAL_PADDLE_WIDTH, SPEED_LIMIT};

verus! {

/// Side of the ball's bounding box.
pub const BALL_SIZE: i64 = 10_000;

pub const PADDLE_HEIGHT: i64 = 8_000;

/// Distance the paddle travels per second while a move is requested.
pub const PADDLE_SPEED: i64 = 720_000;

pub const BRICK_COL_COUNT: usize = 12;

pub const BRICK_ROW_COUNT: usize = 16;

/// Number of cells of the grid: rows times columns.
pub const BRICK_COUNT: usize = 192;

pub const BRICK_WIDTH: i64 = 60_000;

pub const BRICK_HEIGHT: i64 = 20_000;

/// Space between neighbouring bricks, in both directions.
pub const BRICK_GAP: i64 = 2_000;

/// Distance of the first column from the left edge.
pub const BRICK_HPADDING: i64 = 28_000;

/// Distance of the first row from the top edge.
pub const BRICK_VPADDING: i64 = 35_000;

/// Rows per colour band.
pub const ROWS_PER_BAND: usize = 4;

/// The ball: a bounding box, a scalar speed and a diagonal direction.
#[derive(Clone, Copy, Debug, PartialEq, Eq, Structural)]
pub struct Ball {
    pub rect: Rect,
    pub speed: i64,
    pub dir_x: i64,
    pub dir_y: i64,
}

/// The paddle; only `rect.x` and `rect.w` change during a session.
#[derive(Clone, Copy, Debug, PartialEq, Eq, Structural)]
pub struct Paddle {
    pub rect: Rect,
}

/// One brick; an inactive brick is gone for good.
#[derive(Clone, Copy, Debug, PartialEq, Eq, Structural)]
pub struct Brick {
    pub rect: Rect,
    pub is_active: bool,
}

/// The bricks in row-major order: cell `row * BRICK_COL_COUNT + col`.
#[derive(Clone, Debug)]
pub struct BrickGrid {
    pub cells: Vec<Brick>,
}

/// `d` is one of the two values a direction component can take.
pub open spec fn is_unit(d: int) -> bool {
    d == 1 || d == -1
}

impl Ball {
    /// Each direction component has magnitude one, the speed is non-negative
    /// and bounded, and the bounding box is well formed.
    pub open spec fn wf(self) -> bool {
        &&& self.rect.wf()
        &&& 0 <= self.speed <= SPEED_LIMIT
        &&& is_unit(self.dir_x as int)
        &&& is_unit(self.dir_y as int)
    }

    /// The ball at the start of a session: mid-horizontal, five sixths of the
    /// way down, heading right and up at the initial speed.
    pub open spec fn initial(field: Playfield) -> Ball {
        Ball {
            rect: Rect {
                x: (field.width / 2) as i64,
                y: (field.height * 5 / 6) as i64,
                w: BALL_SIZE,
                h: BALL_SIZE,
            },
            speed: INITIAL_BALL_SPEED,
            dir_x: 1i64,
            dir_y: -1i64,
        }
    }

    /// The ball as a session starts with it.
    pub fn new(field: Playfield) -> (ball: Ball)
        requires
            field.wf(),
        ensures
            ball == Ball::initial(field),
            ball.wf(),
    {
        Ball {
            rect: Rect::new(field.width / 2, field.height * 5 / 6, BALL_SIZE, BALL_SIZE),
            speed: INITIAL_BALL_SPEED,
            dir_x: 1,
            dir_y: -1,
        }
    }

    /// Runtime test of `wf`.
    pub fn is_valid(&self) -> (ok: bool)
        ensures
            ok == self.wf(),
    {
        self.rect.is_valid() && 0 <= self.speed && self.speed <= SPEED_LIMIT && (self.dir_x == 1
            || self.dir_x == -1) && (self.dir_y == 1 || self.dir_y == -1)
    }
}

impl Paddle {
    /// The paddle's rectangle is well formed.
    pub open spec fn wf(self) -> bool {
        self.rect.wf()
    }

    /// The paddle at the start of a session: mid-horizontal, twenty
    /// twenty-firsts of the way down, at its initial width.
    pub open spec fn initial(field: Playfield) -> Paddle {
        Paddle {
            rect: Rect {
                x: (field.width / 2) as i64,
                y: (field.height * 20 / 21) as i64,
                w: INITIAL_PADDLE_WIDTH,
                h: PADDLE_HEIGHT,
            },
        }
    }

    /// The paddle as a session starts with it.
    pub fn new(field: Playfield) -> (paddle: Paddle)
        requires
            field.wf(),
        ensures
            paddle == Paddle::initial(field),
            paddle.wf(),
    {
        Paddle {
            rect: Rect::new(
                field.width / 2,
                field.height * 20 / 21,
                INITIAL_PADDLE_WIDTH,
                PADDLE_HEIGHT,
            ),
        }
    }

    /// Runtime test of `wf`.
    pub fn is_valid(&self) -> (ok: bool)
        ensures
            ok == self.wf(),
    {
        self.rect.is_valid()
    }
}

/// The brick that the layout puts at `row`, `col`: active, of the fixed size,
/// at column pitch `BRICK_WIDTH + BRICK_GAP` and row pitch `BRICK_HEIGHT + BRICK_GAP`
/// from the padded corner.
pub open spec fn layout_cell(row: int, col: int) -> Brick {
    Brick {
        rect: Rect {
            x: (col * (BRICK_WIDTH + BRICK_GAP) + BRICK_HPADDING) as i64,
            y: (row * (BRICK_HEIGHT + BRICK_GAP) + BRICK_VPADDING) as i64,
            w: BRICK_WIDTH,
            h: BRICK_HEIGHT,
        },
        is_active: true,
    }
}

/// The whole grid as laid out at the start of a session, in row-major order.
pub open spec fn initial_cells() -> Seq<Brick> {
    Seq::new(
        BRICK_COUNT as nat,
        |k: int| layout_cell(k / (BRICK_COL_COUNT as int), k % (BRICK_COL_COUNT as int)),
    )
}

/// Number of inactive bricks in `cells`.
pub open spec fn inactive_count(cells: Seq<Brick>) -> nat
    decreases cells.len(),
{
    if cells.len() == 0 {
        0
    } else {
        inactive_count(cells.drop_last()) + if cells.last().is_active {
            0nat
        } else {
            1nat
        }
    }
}

impl Brick {
    /// An active brick of the fixed size at the origin.
    pub fn new() -> (brick: Brick)
        ensures
            brick == (Brick {
                rect: Rect { x: 0, y: 0, w: BRICK_WIDTH, h: BRICK_HEIGHT },
                is_active: true,
            }),
    {
        Brick { rect: Rect::new(0, 0, BRICK_WIDTH, BRICK_HEIGHT), is_active: true }
    }

    /// Lays out the full grid, every brick active.
    pub fn make_grid() -> (grid: BrickGrid)
        ensures
            grid@ == initial_cells(),
            grid.wf(),
    {
        let mut cells: Vec<Brick> = Vec::new();
        let mut k: usize = 0;
        while k < BRICK_COUNT
            invariant
                k <= BRICK_COUNT,
                cells@.len() == k,
                forall|m: int| 0 <= m < k ==> #[trigger] cells@[m] == initial_cells()[m],
            decreases BRICK_COUNT - k,
        {
            let row: usize = k / BRICK_COL_COUNT;
            let col: usize = k % BRICK_COL_COUNT;
            let mut brick = Brick::new();
            brick.rect.x = col as i64 * (BRICK_WIDTH + BRICK_GAP) + BRICK_HPADDING;
            brick.rect.y = row as i64 * (BRICK_HEIGHT + BRICK_GAP) + BRICK_VPADDING;
            cells.push(brick);
            k = k + 1;
        }
        assert(cells@ =~= initial_cells());
        BrickGrid { cells }
    }
}

impl View for BrickGrid {
    type V = Seq<Brick>;

    open spec fn view(&self) -> Seq<Brick> {
        self.cells@
    }
}

impl BrickGrid {
    /// The grid has exactly `BRICK_COUNT` cells, each with a well-formed rectangle.
    pub open spec fn wf(&self) -> bool {
        cells_wf(self@)
    }

    /// The brick at `row`, `col`.
    pub fn get(&self, row: usize, col: usize) -> (brick: Brick)
        requires
            self.wf(),
            row < BRICK_ROW_COUNT,
            col < BRICK_COL_COUNT,
        ensures
            brick == self@[row * BRICK_COL_COUNT + col],
    {
        self.cells[row * BRICK_COL_COUNT + col]
    }

    /// Number of bricks that are no longer active.
    pub fn count_inactive(&self) -> (n: usize)
        ensures
            n == inactive_count(self@),
    {
        let mut n: usize = 0;
        let mut k: usize = 0;
        while k < self.cells.len()
            invariant
                k <= self.cells@.len(),
                n == inactive_count(self.cells@.take(k as int)),
                n <= k,
            decreases self.cells@.len() - k,
        {
            proof {
                let next = self.cells@.take(k + 1);
                assert(next.drop_last() =~= self.cells@.take(k as int));
            }
            if !self.cells[k].is_active {
                n = n + 1;
            }
            k = k + 1;
        }
        assert(self.cells@.take(k as int) =~= self.cells@);
        n
    }

    /// Runtime test of `wf`.
    pub fn is_valid(&self) -> (ok: bool)
        ensures
            ok == self.wf(),
    {
        if self.cells.len() != BRICK_COUNT {
            return false;
        }
        let mut k: usize = 0;
        while k < BRICK_COUNT
            invariant
                k <= BRICK_COUNT,
                self.cells@.len() == BRICK_COUNT,
                forall|m: int| 0 <= m < k ==> (#[trigger] self.cells@[m]).rect.wf(),
            decreases BRICK_COUNT - k,
        {
            if !self.cells[k].rect.is_valid() {
                return false;
            }
            k = k + 1;
        }
        true
    }
}

/// Validity of a row-major sequence of bricks.
pub open spec fn cells_wf(cells: Seq<Brick>) -> bool {
    &&& cells.len() == BRICK_COUNT
    &&& forall|k: int| 0 <= k < cells.len() ==> (#[trigger] cells[k]).rect.wf()
}

/// The grid has a cell for each pair of a row and a column.
pub proof fn lemma_brick_count()
    ensures
        BRICK_COUNT == BRICK_ROW_COUNT * BRICK_COL_COUNT,
{
}

/// The brick at row `row`, column `col` of the initial grid sits where the
/// layout formula puts it.
pub proof fn lemma_grid_layout(row: int, col: int)
    requires
        0 <= row < BRICK_ROW_COUNT,
        0 <= col < BRICK_COL_COUNT,
    ensures
        initial_cells()[row * BRICK_COL_COUNT + col] == layout_cell(row, col),
        layout_cell(row, col).rect.x == col * (BRICK_WIDTH + BRICK_GAP) + BRICK_HPADDING,
        layout_cell(row, col).rect.y == row * (BRICK_HEIGHT + BRICK_GAP) + BRICK_VPADDING,
        layout_cell(row, col).is_active,
{
}

/// No more bricks are inactive than there are bricks.
pub proof fn lemma_inactive_count_bounded(cells: Seq<Brick>)
    ensures
        inactive_count(cells) <= cells.len(),
    decreases cells.len(),
{
    if cells.len() > 0 {
        lemma_inactive_count_bounded(cells.drop_last());
    }
}

/// Deactivating one active brick raises the count of inactive bricks by one.
pub proof fn lemma_deactivate_counts_one(cells: Seq<Brick>, k: int)
    requires
        0 <= k < cells.len(),
        cells[k].is_active,
    ensures
        inactive_count(cells.update(k, Brick { rect: cells[k].rect, is_active: false }))
            == inactive_count(cells) + 1,
    decreases cells.len(),
{
    let gone = Brick { rect: cells[k].rect, is_active: false };
    let after = cells.update(k, gone);
    if k == cells.len() - 1 {
        assert(after.drop_last() =~= cells.drop_last());
    } else {
        lemma_deactivate_counts_one(cells.drop_last(), k);
        assert(after.drop_last() =~= cells.drop_last().update(k, gone));
    }
}

/// In the initial grid every brick is active.
pub proof fn lemma_initial_grid_all_active()
    ensures
        inactive_count(initial_cells()) == 0,
        cells_wf(initial_cells()),
{
    lemma_all_active_counts_zero(initial_cells());
}

/// A sequence of active bricks has no inactive ones.
pub proof fn lemma_all_active_counts_zero(cells: Seq<Brick>)
    requires
        forall|k: int| 0 <= k < cells.len() ==> (#[trigger] cells[k]).is_active,
    ensures
        inactive_count(cells) == 0,
    decreases cells.len(),
{
    if cells.len() > 0 {
        lemma_all_active_counts_zero(cells.drop_last());
    }
}

} // verus!
