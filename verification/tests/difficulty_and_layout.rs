use breakout::difficulty::{
    ball_speed, paddle_width, INITIAL_BALL_SPEED, INITIAL_PADDLE_WIDTH, SCORE_AT_MAX_BALL_SPEED,
    SCORE_AT_MIN_PADDLE_WIDTH,
};
use breakout::entities::{
    Ball, Brick, Paddle, BALL_SIZE, BRICK_COL_COUNT, BRICK_COUNT, BRICK_GAP, BRICK_HEIGHT,
    BRICK_HPADDING, BRICK_ROW_COUNT, BRICK_VPADDING, BRICK_WIDTH, PADDLE_HEIGHT,
};
use breakout::geometry::{Playfield, Rect};

#[test]
fn difficulty_at_score_zero_is_initial() {
    assert_eq!(paddle_width(0), INITIAL_PADDLE_WIDTH);
    assert_eq!(ball_speed(0), INITIAL_BALL_SPEED);
    assert_eq!(paddle_width(0), 150_000);
    assert_eq!(ball_speed(0), 150_000);
}

#[test]
fn paddle_is_gone_at_the_cliff() {
    assert_eq!(paddle_width(SCORE_AT_MIN_PADDLE_WIDTH), 0);
    assert_eq!(paddle_width(SCORE_AT_MIN_PADDLE_WIDTH - 1000), 586);
    assert_eq!(paddle_width(SCORE_AT_MIN_PADDLE_WIDTH + 1000), 0);
    assert_eq!(paddle_width(u64::MAX), 0);
}

#[test]
fn paddle_shrinks_linearly() {
    assert_eq!(paddle_width(128_000), 75_000);
    assert_eq!(paddle_width(1000), 149_415);
    assert_eq!(paddle_width(64_000), 112_500);
}

#[test]
fn ball_speed_doubles_at_its_mark() {
    assert_eq!(ball_speed(SCORE_AT_MAX_BALL_SPEED), 2 * INITIAL_BALL_SPEED);
    assert_eq!(ball_speed(76_800), 300_000);
}

#[test]
fn ball_speed_grows_without_ceiling() {
    assert_eq!(ball_speed(1000), 151_953);
    assert_eq!(ball_speed(192_000), 525_000);
    assert_eq!(ball_speed(768_000), 1_650_000);
    assert_eq!(ball_speed(1_000_000_000), 1_953_275_000);
    assert_eq!(ball_speed(4_000_000_000_000_000_000), 7_812_500_000_000_150_000);
}

#[test]
fn difficulty_is_monotone_on_samples() {
    let mut score: u64 = 0;
    let mut last_width = paddle_width(0);
    let mut last_speed = ball_speed(0);
    while score <= 300_000 {
        let w = paddle_width(score);
        let s = ball_speed(score);
        assert!(w <= last_width);
        assert!(s >= last_speed);
        last_width = w;
        last_speed = s;
        score += 1000;
    }
}

#[test]
fn new_brick_sits_at_origin() {
    let b = Brick::new();
    assert_eq!(b.rect, Rect::new(0, 0, BRICK_WIDTH, BRICK_HEIGHT));
    assert!(b.is_active);
}

#[test]
fn grid_corner_cells_follow_the_layout() {
    let grid = Brick::make_grid();
    assert_eq!(grid.cells.len(), BRICK_COUNT);
    assert!(grid.is_valid());
    let first = grid.get(0, 0);
    assert_eq!(first.rect, Rect::new(28_000, 35_000, 60_000, 20_000));
    let last = grid.get(BRICK_ROW_COUNT - 1, BRICK_COL_COUNT - 1);
    assert_eq!(last.rect, Rect::new(710_000, 365_000, 60_000, 20_000));
    assert!(first.is_active && last.is_active);
}

#[test]
fn grid_cells_follow_the_layout_everywhere() {
    let grid = Brick::make_grid();
    for row in 0..BRICK_ROW_COUNT {
        for col in 0..BRICK_COL_COUNT {
            let b = grid.get(row, col);
            assert_eq!(b.rect.x, col as i64 * (BRICK_WIDTH + BRICK_GAP) + BRICK_HPADDING);
            assert_eq!(b.rect.y, row as i64 * (BRICK_HEIGHT + BRICK_GAP) + BRICK_VPADDING);
            assert_eq!(b.rect.w, BRICK_WIDTH);
            assert_eq!(b.rect.h, BRICK_HEIGHT);
            assert!(b.is_active);
        }
    }
    assert_eq!(grid.count_inactive(), 0);
}

#[test]
fn count_inactive_counts() {
    let mut grid = Brick::make_grid();
    grid.cells[3].is_active = false;
    grid.cells[100].is_active = false;
    grid.cells[191].is_active = false;
    assert_eq!(grid.count_inactive(), 3);
}

#[test]
fn grid_of_wrong_size_is_invalid() {
    let mut grid = Brick::make_grid();
    grid.cells.pop();
    assert!(!grid.is_valid());
}

#[test]
fn ball_starts_mid_field_heading_up_right() {
    let field = Playfield::new(800_000, 600_000);
    assert!(field.is_valid());
    let ball = Ball::new(field);
    assert_eq!(ball.rect, Rect::new(400_000, 500_000, BALL_SIZE, BALL_SIZE));
    assert_eq!(ball.speed, 150_000);
    assert_eq!(ball.dir_x, 1);
    assert_eq!(ball.dir_y, -1);
    assert!(ball.is_valid());
}

#[test]
fn paddle_starts_near_the_bottom() {
    let field = Playfield::new(800_000, 600_000);
    let paddle = Paddle::new(field);
    assert_eq!(paddle.rect, Rect::new(400_000, 571_428, 150_000, PADDLE_HEIGHT));
    assert!(paddle.is_valid());
}

#[test]
fn playfield_validity() {
    assert!(Playfield::new(0, 0).is_valid());
    assert!(!Playfield::new(-1, 10).is_valid());
    assert!(!Playfield::new(10, i64::MAX).is_valid());
}

#[test]
fn rect_overlap_needs_positive_area_in_common() {
    let a = Rect::new(0, 0, 10, 10);
    assert!(a.overlaps(&Rect::new(5, 5, 10, 10)));
    assert!(a.overlaps(&Rect::new(9, 9, 1, 1)));
    assert!(!a.overlaps(&Rect::new(10, 0, 10, 10)));
    assert!(!a.overlaps(&Rect::new(0, 10, 10, 10)));
    assert!(!a.overlaps(&Rect::new(-10, 0, 10, 10)));
    assert!(!a.overlaps(&Rect::new(20, 20, 5, 5)));
    assert!(!a.overlaps(&Rect::new(5, 5, 0, 10)));
    assert!(!Rect::new(5, 5, 10, 0).overlaps(&a));
    assert!(Rect::new(i64::MAX - 5, 0, 10, 10).overlaps(&Rect::new(i64::MAX - 2, 5, 1, 1)));
}

#[test]
fn rect_overlap_is_symmetric_on_samples() {
    let rects = [
        Rect::new(0, 0, 10, 10),
        Rect::new(5, 5, 10, 10),
        Rect::new(10, 0, 3, 3),
        Rect::new(-4, -4, 5, 5),
        Rect::new(2, 2, 0, 0),
    ];
    for a in rects.iter() {
        for b in rects.iter() {
            assert_eq!(a.overlaps(b), b.overlaps(a));
        }
    }
}

#[test]
fn rect_center_is_doubled() {
    assert_eq!(Rect::new(10, 20, 5, 7).center2(), (25, 47));
    assert!(Rect::new(10, 20, 5, 7).is_valid());
    assert!(!Rect::new(10, 20, -5, 7).is_valid());
}
