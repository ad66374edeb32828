use breakout::collision::{classify_hit, find_first_hit, resolve_bricks, HitKind};
use breakout::entities::{Ball, Brick, Paddle};
use breakout::geometry::{Playfield, Rect};
use breakout::motion::{clamp_dt, Steer, MAX_DT_MS};

fn field() -> Playfield {
    Playfield::new(800_000, 600_000)
}

fn ball_at(x: i64, y: i64, dir_x: i64, dir_y: i64) -> Ball {
    Ball { rect: Rect::new(x, y, 10_000, 10_000), speed: 150_000, dir_x, dir_y }
}

#[test]
fn clamp_dt_keeps_sane_values() {
    assert_eq!(clamp_dt(0), 0);
    assert_eq!(clamp_dt(16), 16);
    assert_eq!(clamp_dt(MAX_DT_MS), 1000);
}

#[test]
fn clamp_dt_rejects_degenerate_values() {
    assert_eq!(clamp_dt(-1), 0);
    assert_eq!(clamp_dt(i64::MIN), 0);
    assert_eq!(clamp_dt(1001), 1000);
    assert_eq!(clamp_dt(i64::MAX), 1000);
}

#[test]
fn ball_moves_along_its_direction() {
    let mut ball = ball_at(400_000, 500_000, 1, -1);
    let exited = ball.advance(field(), 16);
    assert!(!exited);
    assert_eq!(ball.rect, Rect::new(402_400, 497_600, 10_000, 10_000));
    assert_eq!((ball.dir_x, ball.dir_y), (1, -1));
    assert_eq!(ball.speed, 150_000);
}

#[test]
fn left_edge_reflects() {
    for x in [0i64, -1, -5_000, -1_000_000] {
        let mut ball = ball_at(x, 300_000, -1, -1);
        assert!(!ball.advance(field(), 0));
        assert_eq!(ball.rect.x, 0);
        assert_eq!(ball.dir_x, 1);
        let mut ball = ball_at(x, 300_000, -1, -1);
        assert!(!ball.advance(field(), 10));
        assert_eq!(ball.rect.x, 1_500);
        assert_eq!(ball.dir_x, 1);
    }
}

#[test]
fn right_edge_reflects() {
    for x in [800_000i64, 800_001, 2_000_000] {
        let mut ball = ball_at(x, 300_000, 1, 1);
        assert!(!ball.advance(field(), 0));
        assert_eq!(ball.rect.x, 800_000);
        assert_eq!(ball.dir_x, -1);
        let mut ball = ball_at(x, 300_000, 1, 1);
        assert!(!ball.advance(field(), 10));
        assert_eq!(ball.rect.x, 798_500);
        assert_eq!(ball.rect.y, 301_500);
    }
}

#[test]
fn top_edge_reflects() {
    for y in [0i64, -1, -70_000] {
        let mut ball = ball_at(300_000, y, 1, -1);
        assert!(!ball.advance(field(), 0));
        assert_eq!(ball.rect.y, 0);
        assert_eq!(ball.dir_y, 1);
        let mut ball = ball_at(300_000, y, 1, -1);
        assert!(!ball.advance(field(), 20));
        assert_eq!(ball.rect.y, 3_000);
        assert_eq!(ball.rect.x, 303_000);
    }
}

#[test]
fn bottom_edge_is_an_exit_not_a_bounce() {
    for dir_y in [1i64, -1] {
        for y in [600_000i64, 600_001, 900_000] {
            let mut ball = ball_at(300_000, y, 1, dir_y);
            assert!(ball.advance(field(), 16));
            assert_eq!(ball.rect, Rect::new(300_000, y, 10_000, 10_000));
            assert_eq!(ball.dir_y, dir_y);
        }
    }
}

#[test]
fn exiting_ball_is_still_put_onto_a_side_edge() {
    let mut ball = ball_at(-3, 700_000, -1, 1);
    assert!(ball.advance(field(), 16));
    assert_eq!(ball.rect.x, 0);
    assert_eq!(ball.dir_x, 1);
    assert_eq!(ball.rect.y, 700_000);
}

#[test]
fn zero_dt_moves_nothing() {
    let mut ball = ball_at(123_456, 234_567, -1, 1);
    assert!(!ball.advance(field(), 0));
    assert_eq!(ball, ball_at(123_456, 234_567, -1, 1));
    let mut paddle = Paddle::new(field());
    paddle.slide(field(), Steer::Right, 0);
    assert_eq!(paddle, Paddle::new(field()));
}

#[test]
fn negative_dt_counts_as_zero() {
    let mut ball = ball_at(123_456, 234_567, -1, 1);
    assert!(!ball.advance(field(), -500));
    assert_eq!(ball, ball_at(123_456, 234_567, -1, 1));
}

#[test]
fn stalled_frame_counts_as_the_longest() {
    let mut ball = ball_at(100_000, 100_000, 1, 1);
    assert!(!ball.advance(field(), 1_000_000));
    assert_eq!(ball.rect.x, 250_000);
    assert_eq!(ball.rect.y, 250_000);
}

#[test]
fn stride_is_truncated_to_whole_thousandths() {
    let mut ball = ball_at(100_000, 100_000, 1, 1);
    ball.speed = 151_953;
    assert!(!ball.advance(field(), 16));
    assert_eq!(ball.rect.x, 102_431);
    assert_eq!(ball.rect.y, 102_431);
}

#[test]
fn paddle_slides_by_speed_times_dt() {
    let mut paddle = Paddle::new(field());
    paddle.slide(field(), Steer::Right, 16);
    assert_eq!(paddle.rect.x, 411_520);
    paddle.slide(field(), Steer::Left, 100);
    assert_eq!(paddle.rect.x, 339_520);
    paddle.slide(field(), Steer::Straight, 100);
    assert_eq!(paddle.rect.x, 339_520);
    assert_eq!(paddle.rect.y, 571_428);
    assert_eq!(paddle.rect.w, 150_000);
}

#[test]
fn paddle_stops_at_both_edges() {
    let mut paddle = Paddle::new(field());
    paddle.slide(field(), Steer::Right, 1000);
    assert_eq!(paddle.rect.x, 650_000);
    paddle.slide(field(), Steer::Right, 16);
    assert_eq!(paddle.rect.x, 650_000);
    paddle.slide(field(), Steer::Left, 1000);
    assert_eq!(paddle.rect.x, 0);
    paddle.slide(field(), Steer::Left, 16);
    assert_eq!(paddle.rect.x, 0);
}

#[test]
fn paddle_wider_than_field_rests_at_zero() {
    let narrow = Playfield::new(100_000, 600_000);
    let mut paddle = Paddle::new(narrow);
    paddle.slide(narrow, Steer::Right, 16);
    assert_eq!(paddle.rect.x, 0);
}

#[test]
fn brick_straight_above_is_a_vertical_hit() {
    // ball centre (0, 0), brick centre (0, -10)
    assert_eq!(classify_hit(0 - 0, 0 - (-10)), HitKind::Vertical);
    assert_eq!(classify_hit(0, -10), HitKind::Vertical);
}

#[test]
fn brick_straight_beside_is_a_horizontal_hit() {
    // ball centre (0, 0), brick centre (10, 0)
    assert_eq!(classify_hit(0 - 10, 0 - 0), HitKind::Horizontal);
    assert_eq!(classify_hit(10, 0), HitKind::Horizontal);
}

#[test]
fn coinciding_centres_are_a_vertical_hit() {
    assert_eq!(classify_hit(0, 0), HitKind::Vertical);
}

#[test]
fn hit_threshold_is_one_quarter() {
    // |dy| / sqrt(dx^2 + dy^2) >= 1/4  <=>  15 dy^2 >= dx^2
    assert_eq!(classify_hit(3, 1), HitKind::Vertical);
    assert_eq!(classify_hit(4, 1), HitKind::Horizontal);
    assert_eq!(classify_hit(-3, -1), HitKind::Vertical);
    assert_eq!(classify_hit(-4, 1), HitKind::Horizontal);
    assert_eq!(classify_hit(3872, 1000), HitKind::Vertical);
    assert_eq!(classify_hit(3873, 1000), HitKind::Horizontal);
    assert_eq!(classify_hit(1, 1), HitKind::Vertical);
}

#[test]
fn hit_classification_does_not_overflow() {
    assert_eq!(classify_hit(i64::MIN, i64::MIN), HitKind::Vertical);
    assert_eq!(classify_hit(i64::MAX, i64::MIN), HitKind::Vertical);
    assert_eq!(classify_hit(i64::MIN, 1), HitKind::Horizontal);
    assert_eq!(classify_hit(i64::MAX, i64::MAX / 3), HitKind::Vertical);
    assert_eq!(classify_hit(i64::MAX, i64::MAX / 4), HitKind::Horizontal);
}

#[test]
fn paddle_always_sends_the_ball_up() {
    let paddle = Paddle { rect: Rect::new(100_000, 500_000, 150_000, 8_000) };
    for (dx, dy) in [(1i64, 1i64), (-1, 1), (1, -1), (-1, -1)] {
        let mut ball = ball_at(95_000, 495_000, dx, dy);
        assert!(ball.bounce_off_paddle(&paddle));
        assert_eq!(ball.dir_y, -1);
        assert_eq!(ball.dir_x, dx);
    }
}

#[test]
fn paddle_out_of_reach_changes_nothing() {
    let paddle = Paddle { rect: Rect::new(100_000, 500_000, 150_000, 8_000) };
    let mut ball = ball_at(95_000, 490_000, 1, 1);
    assert!(!ball.bounce_off_paddle(&paddle));
    assert_eq!(ball, ball_at(95_000, 490_000, 1, 1));
}

#[test]
fn deflection_flips_one_axis() {
    let brick = Rect::new(100_000, 100_000, 60_000, 20_000);
    let mut below = ball_at(125_000, 115_000, 1, -1);
    assert_eq!(below.deflect_off_brick(&brick), HitKind::Vertical);
    assert_eq!((below.dir_x, below.dir_y), (1, 1));
    let mut beside = ball_at(155_000, 105_000, -1, -1);
    assert_eq!(beside.deflect_off_brick(&brick), HitKind::Horizontal);
    assert_eq!((beside.dir_x, beside.dir_y), (1, -1));
}

#[test]
fn first_hit_is_row_major_first() {
    let grid = Brick::make_grid();
    // overlaps columns 0 and 1 of rows 0 and 1
    let ball = Rect::new(85_000, 50_000, 10_000, 10_000);
    assert_eq!(find_first_hit(&grid, &ball), Some(0));
    let nowhere = Rect::new(0, 0, 10_000, 10_000);
    assert_eq!(find_first_hit(&grid, &nowhere), None);
    // in the gap between two columns
    let gap = Rect::new(88_000, 40_000, 2_000, 2_000);
    assert_eq!(find_first_hit(&grid, &gap), None);
}

#[test]
fn inactive_bricks_are_passed_over() {
    let mut grid = Brick::make_grid();
    let ball = Rect::new(85_000, 50_000, 10_000, 10_000);
    grid.cells[0].is_active = false;
    assert_eq!(find_first_hit(&grid, &ball), Some(1));
    grid.cells[1].is_active = false;
    assert_eq!(find_first_hit(&grid, &ball), Some(12));
    grid.cells[12].is_active = false;
    assert_eq!(find_first_hit(&grid, &ball), Some(13));
    grid.cells[13].is_active = false;
    assert_eq!(find_first_hit(&grid, &ball), None);
}

#[test]
fn exactly_one_of_two_overlapped_bricks_goes() {
    let mut grid = Brick::make_grid();
    let before = grid.clone();
    // straddles the gap between columns 3 and 4 of the top row
    let mut ball = ball_at(270_000, 30_000, 1, -1);
    assert!(ball.rect.overlaps(&grid.get(0, 3).rect));
    assert!(ball.rect.overlaps(&grid.get(0, 4).rect));
    let mut score: u64 = 0;
    let hit = resolve_bricks(&mut ball, &mut grid, &mut score);
    assert_eq!(hit, Some(3));
    assert_eq!(score, 1000);
    assert_eq!(grid.count_inactive(), 1);
    assert!(!grid.get(0, 3).is_active);
    assert!(grid.get(0, 4).is_active);
    for k in 0..grid.cells.len() {
        assert_eq!(grid.cells[k].rect, before.cells[k].rect);
        if k != 3 {
            assert_eq!(grid.cells[k], before.cells[k]);
        }
    }
    // ball centre (275, 35), brick centre (244, 45): mostly sideways, yet above the threshold
    assert_eq!((ball.dir_x, ball.dir_y), (1, 1));
    assert_eq!(ball.rect, Rect::new(270_000, 30_000, 10_000, 10_000));
}

#[test]
fn a_pass_without_overlap_changes_nothing() {
    let mut grid = Brick::make_grid();
    let mut ball = ball_at(400_000, 500_000, 1, -1);
    let mut score: u64 = 7000;
    assert_eq!(resolve_bricks(&mut ball, &mut grid, &mut score), None);
    assert_eq!(score, 7000);
    assert_eq!(grid.count_inactive(), 0);
    assert_eq!(ball, ball_at(400_000, 500_000, 1, -1));
}

#[test]
fn second_pass_takes_the_second_brick() {
    let mut grid = Brick::make_grid();
    let mut ball = ball_at(270_000, 30_000, 1, -1);
    let mut score: u64 = 0;
    assert_eq!(resolve_bricks(&mut ball, &mut grid, &mut score), Some(3));
    assert_eq!(resolve_bricks(&mut ball, &mut grid, &mut score), Some(4));
    assert_eq!(resolve_bricks(&mut ball, &mut grid, &mut score), None);
    assert_eq!(score, 2000);
    assert_eq!(grid.count_inactive(), 2);
}
