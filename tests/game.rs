use breakout::ball::Ball;
use breakout::bricks::{Brick, BrickStatus};
use breakout::consts::{
    BRICK_COLUMN_COUNT, BRICK_ROW_COUNT, COORD_LIMIT, DEFAULT_LIVES, INIT_SPEED, MAX_SPEED,
};
use breakout::container::{is_nealy_edge, BrickEdge, Container, Hit};
use breakout::game_status::{GameStatus, Status};
use breakout::paddle::Paddle;
use breakout::physics::{follow_pointer, handle_key, paddle_offset, update, Key, Outcome};

fn running() -> GameStatus {
    let mut g = GameStatus::new();
    g.set_status(Status::Start);
    g
}

fn laid_out_board() -> Container {
    let mut board = Container::new("http://localhost/".to_string());
    board.layout();
    board
}

#[test]
fn new_ball_starts_at_initial_speed() {
    let b = Ball::new(100, -100, 24000, 30000);
    assert_eq!(b.get_dx(), 100);
    assert_eq!(b.get_dy(), -100);
    assert_eq!(b.get_x(), 24000);
    assert_eq!(b.get_y(), 30000);
    assert_eq!(b.get_speed(), INIT_SPEED);
}

#[test]
fn speed_ramps_up_to_the_cap() {
    let mut b = Ball::new(0, 0, 0, 0);
    b.add_speed();
    assert_eq!(b.get_speed(), INIT_SPEED + 1);
    for _ in 0..200 {
        b.add_speed();
    }
    assert_eq!(b.get_speed(), MAX_SPEED);
    b.init_speed();
    assert_eq!(b.get_speed(), INIT_SPEED);
}

#[test]
fn ball_range_check() {
    assert!(Ball::new(1, 1, 1, 1).in_range());
    assert!(!Ball::new(1, 1, COORD_LIMIT + 1, 1).in_range());
    assert!(!Ball::new(i64::MIN, 1, 1, 1).in_range());
}

#[test]
fn new_game_status_defaults() {
    let g = GameStatus::new();
    assert_eq!(g.get_score(), 0);
    assert_eq!(g.get_lives(), DEFAULT_LIVES);
    assert_eq!(g.get_status(), Status::Prepare);
}

#[test]
fn brick_breaks_on_first_strike() {
    let mut b = Brick::new(10, 20, BrickStatus::Live);
    assert_eq!(b.update_status(), BrickStatus::Dead);
    assert_eq!(b.get_status(), BrickStatus::Dead);
    assert_eq!(b.get_x(), 10);
    assert_eq!(b.get_y(), 20);
}

#[test]
fn brick_slot_position() {
    let mut b = Brick::new(0, 0, BrickStatus::Live);
    b.set_x_and_y_from_col_row(2, 1);
    assert_eq!(b.get_x(), 2 * 8500 + 3000);
    assert_eq!(b.get_y(), 3000 + 3000);
}

#[test]
fn nearest_edge_choice() {
    assert_eq!(is_nealy_edge(1, 2, 3, 4), BrickEdge::Top);
    assert_eq!(is_nealy_edge(2, 1, 3, 4), BrickEdge::Bottom);
    assert_eq!(is_nealy_edge(3, 2, 1, 4), BrickEdge::Left);
    assert_eq!(is_nealy_edge(4, 3, 2, 1), BrickEdge::Right);
    // no single nearest edge
    assert_eq!(is_nealy_edge(1, 1, 5, 5), BrickEdge::Right);
}

#[test]
fn new_board_shape() {
    let board = Container::new("u/".to_string());
    assert_eq!(board.get_col_len(), BRICK_COLUMN_COUNT);
    for c in 0..BRICK_COLUMN_COUNT {
        assert_eq!(board.get_row_len(c), BRICK_ROW_COUNT);
        for r in 0..BRICK_ROW_COUNT {
            assert_eq!(board.get_status(c, r), BrickStatus::Live);
        }
    }
    assert_eq!(board.asset_url(), "u/");
}

#[test]
fn layout_places_every_brick() {
    let board = laid_out_board();
    let b = board.get_brick(4, 2);
    assert_eq!(b.get_x(), 4 * 8500 + 3000);
    assert_eq!(b.get_y(), 2 * 3000 + 3000);
    assert!(board.in_range());
}

#[test]
fn board_setters() {
    let mut board = laid_out_board();
    board.set_x(1, 1, 5);
    board.set_y(1, 1, 6);
    board.set_status(1, 1, BrickStatus::Dead);
    let b = board.get_brick(1, 1);
    assert_eq!((b.get_x(), b.get_y(), b.get_status()), (5, 6, BrickStatus::Dead));
    board.set_x(0, 0, i64::MAX);
    assert!(!board.in_range());
}

#[test]
fn collision_near_left_edge_flips_dx() {
    let mut board = laid_out_board();
    let mut g = running();
    let mut b = Ball::new(100, -100, 3100, 4000);
    let r = board.collision_detection(&mut g, &mut b);
    assert_eq!(r.hits, vec![Hit { col: 0, row: 0, edge: BrickEdge::Left }]);
    assert!(!r.won);
    assert_eq!(b.get_dx(), -100);
    assert_eq!(b.get_dy(), -100);
    assert_eq!(b.get_speed(), INIT_SPEED + 1);
    assert_eq!(g.get_score(), 1);
    assert_eq!(board.get_status(0, 0), BrickStatus::Dead);
    assert_eq!(board.get_status(1, 0), BrickStatus::Live);
}

#[test]
fn collision_near_top_edge_flips_dy() {
    let mut board = laid_out_board();
    let mut g = running();
    let mut b = Ball::new(100, -100, 6000, 4900);
    let r = board.collision_detection(&mut g, &mut b);
    assert_eq!(r.hits, vec![Hit { col: 0, row: 0, edge: BrickEdge::Top }]);
    assert_eq!(b.get_dx(), 100);
    assert_eq!(b.get_dy(), 100);
}

#[test]
fn dead_brick_is_passed_through() {
    let mut board = laid_out_board();
    board.set_status(0, 0, BrickStatus::Dead);
    let mut g = running();
    let mut b = Ball::new(100, -100, 3100, 4000);
    let r = board.collision_detection(&mut g, &mut b);
    assert!(r.hits.is_empty());
    assert_eq!(b.get_dx(), 100);
    assert_eq!(g.get_score(), 0);
}

#[test]
fn ball_on_gap_hits_nothing() {
    let mut board = laid_out_board();
    let mut g = running();
    // between the first and second column
    let mut b = Ball::new(100, -100, 11000, 4000);
    let r = board.collision_detection(&mut g, &mut b);
    assert!(r.hits.is_empty());
    assert!(!r.won);
}

#[test]
fn last_brick_wins() {
    let mut board = laid_out_board();
    let mut g = running();
    g.set_score(14);
    let mut b = Ball::new(100, -100, 3100, 4000);
    let r = board.collision_detection(&mut g, &mut b);
    assert!(r.won);
    assert_eq!(g.get_score(), 15);
}

#[test]
fn overlapping_bricks_all_break() {
    let mut board = laid_out_board();
    board.set_x(1, 0, 3000);
    let mut g = running();
    let mut b = Ball::new(100, -100, 3100, 4000);
    let r = board.collision_detection(&mut g, &mut b);
    assert_eq!(r.hits.len(), 2);
    assert_eq!(r.hits[1], Hit { col: 1, row: 0, edge: BrickEdge::Left });
    // two flips cancel
    assert_eq!(b.get_dx(), 100);
    assert_eq!(b.get_speed(), INIT_SPEED + 2);
    assert_eq!(g.get_score(), 2);
}

#[test]
fn paused_game_does_not_move() {
    let mut b = Ball::new(100, -100, 20000, 20000);
    let mut p = Paddle::new(100);
    let mut g = GameStatus::new();
    assert_eq!(update(&mut b, &mut p, &mut g, 48000, 32000, 0, 0), Outcome::Paused);
    assert_eq!((b.get_x(), b.get_y()), (20000, 20000));
}

#[test]
fn ball_moves_along_velocity() {
    let mut b = Ball::new(100, -100, 20000, 20000);
    let mut p = Paddle::new(100);
    let mut g = running();
    assert_eq!(update(&mut b, &mut p, &mut g, 48000, 32000, 0, 0), Outcome::Running);
    assert_eq!((b.get_x(), b.get_y()), (20100, 19900));
}

#[test]
fn side_wall_and_ceiling_bounce() {
    let mut b = Ball::new(100, -100, 46950, 1050);
    let mut p = Paddle::new(100);
    let mut g = running();
    update(&mut b, &mut p, &mut g, 48000, 32000, 0, 0);
    assert_eq!((b.get_dx(), b.get_dy()), (-100, 100));
    assert_eq!((b.get_x(), b.get_y()), (46850, 1150));
}

#[test]
fn paddle_hit_takes_given_velocity() {
    let mut b = Ball::new(100, 100, 20000, 30950);
    let mut p = Paddle::new(15000);
    let mut g = running();
    let out = update(&mut b, &mut p, &mut g, 48000, 32000, 30, -140);
    assert_eq!(out, Outcome::Running);
    assert_eq!((b.get_dx(), b.get_dy()), (30, -140));
    assert_eq!((b.get_x(), b.get_y()), (20030, 30810));
    assert_eq!(b.get_speed(), INIT_SPEED + 1);
    assert_eq!(g.get_lives(), DEFAULT_LIVES);
}

#[test]
fn missed_ball_costs_a_life_and_serves_again() {
    let mut b = Ball::new(100, 100, 40000, 30950);
    let mut p = Paddle::new(1000);
    let mut g = running();
    let out = update(&mut b, &mut p, &mut g, 48000, 32000, 0, 0);
    assert_eq!(out, Outcome::BallLost);
    assert_eq!(g.get_lives(), DEFAULT_LIVES - 1);
    assert_eq!(g.get_status(), Status::Stop);
    assert_eq!((b.get_x(), b.get_y()), (24000 + 100, 30000 - 100));
    assert_eq!((b.get_dx(), b.get_dy()), (100, -100));
    assert_eq!(b.get_speed(), INIT_SPEED);
    assert_eq!(p.get_x(), 24000 - 3750);
}

#[test]
fn last_life_ends_the_game() {
    let mut b = Ball::new(100, 100, 40000, 30950);
    let mut p = Paddle::new(1000);
    let mut g = running();
    g.set_lives(1);
    let out = update(&mut b, &mut p, &mut g, 48000, 32000, 0, 0);
    assert_eq!(out, Outcome::GameOver);
    assert_eq!(g.get_lives(), 0);
    assert_eq!(b.get_dy(), -100);
}

#[test]
fn arrow_keys_steer_the_paddle() {
    let mut p = Paddle::new(1000);
    handle_key(&mut p, Key::Right, true);
    assert!(p.get_right_pressed());
    let mut b = Ball::new(100, -100, 20000, 20000);
    let mut g = running();
    update(&mut b, &mut p, &mut g, 48000, 32000, 0, 0);
    assert_eq!(p.get_x(), 1700);
    handle_key(&mut p, Key::Right, false);
    handle_key(&mut p, Key::Left, true);
    handle_key(&mut p, Key::Other, false);
    assert!(p.get_left_pressed());
    update(&mut b, &mut p, &mut g, 48000, 32000, 0, 0);
    assert_eq!(p.get_x(), 1000);
    // at the left wall the paddle stays
    p.set_x(0);
    update(&mut b, &mut p, &mut g, 48000, 32000, 0, 0);
    assert_eq!(p.get_x(), 0);
}

#[test]
fn pointer_moves_paddle_and_waiting_ball() {
    let mut p = Paddle::new(0);
    let mut b = Ball::new(100, -100, 20000, 30000);
    let g = GameStatus::new();
    follow_pointer(&mut p, &mut b, &g, 10000, 48000);
    assert_eq!(p.get_x(), 10000 - 3750);
    assert_eq!(b.get_x(), 10000);
    let g = running();
    follow_pointer(&mut p, &mut b, &g, 12000, 48000);
    assert_eq!(p.get_x(), 12000 - 3750);
    assert_eq!(b.get_x(), 10000);
    follow_pointer(&mut p, &mut b, &g, 50000, 48000);
    assert_eq!(p.get_x(), 12000 - 3750);
}

#[test]
fn offset_from_paddle_middle() {
    let b = Ball::new(0, 0, 20000, 0);
    let p = Paddle::new(15000);
    assert_eq!(paddle_offset(&b, &p), 21000 - 18750);
}

#[test]
fn second_pass_breaks_nothing() {
    let mut board = laid_out_board();
    let mut g = running();
    let mut b = Ball::new(100, -100, 3100, 4000);
    board.collision_detection(&mut g, &mut b);
    let (dx, dy, speed) = (b.get_dx(), b.get_dy(), b.get_speed());
    let again = board.collision_detection(&mut g, &mut b);
    assert!(again.hits.is_empty());
    assert_eq!((b.get_dx(), b.get_dy(), b.get_speed()), (dx, dy, speed));
    assert_eq!((b.get_x(), b.get_y()), (3100, 4000));
    assert_eq!(g.get_score(), 1);
}

#[test]
fn speed_stays_capped_through_many_hits() {
    let mut b = Ball::new(100, -100, 3100, 4000);
    for _ in 0..200 {
        let mut board = laid_out_board();
        let mut g = running();
        board.collision_detection(&mut g, &mut b);
    }
    assert_eq!(b.get_speed(), MAX_SPEED);
}
