use vstd::prelude::*;
use crate::ball::{ramp, Ball, BallView};
use crate::consts::{
    bounded, BALL_RADIUS, COORD_LIMIT, INIT_SPEED, PADDLE_STEP, PADDLE_WIDTH, SPEED,
};
use crate::game_status::{GameStatus, GameView, Status};
use crate::paddle::{Paddle, PaddleView};

verus! {

/// What one physics step amounted to.
#[derive(Debug, Clone, Copy, PartialEq, Eq, Structural)]
pub enum Outcome {
    /// The game is not running; nothing moved.
    Paused,
    /// The ball moved on.
    Running,
    /// The ball fell past the paddle and a new one was served.
    BallLost,
    /// The ball fell past the paddle with no life left.
    GameOver,
}

/// An arrow key, as far as the paddle cares.
#[derive(Debug, Clone, Copy, PartialEq, Eq, Structural)]
pub enum Key {
    Left,
    Right,
    Other,
}

/// The next step would carry the ball past the left or right wall.
pub open spec fn hits_side_wall(b: BallView, width: int) -> bool {
    b.x + b.dx > width - BALL_RADIUS || b.x + b.dx < BALL_RADIUS
}

/// The next step would carry the ball past the ceiling.
pub open spec fn hits_ceiling(b: BallView) -> bool {
    b.y + b.dy < BALL_RADIUS
}

/// The next step would carry the ball past the floor.
pub open spec fn reaches_floor(b: BallView, height: int) -> bool {
    b.y + b.dy > height - BALL_RADIUS
}

/// The ball's centre is strictly between the paddle's two ends.
pub open spec fn over_paddle(b: BallView, p: PaddleView) -> bool {
    p.x < b.x < p.x + PADDLE_WIDTH
}

/// Left edge of a paddle centred on a canvas of this width.
pub open spec fn centred_paddle(width: int) -> int {
    width / 2 - PADDLE_WIDTH / 2
}

/// A fresh ball, served from the middle of the floor up and to the right.
pub open spec fn served(width: int, height: int) -> BallView {
    BallView {
        x: width / 2,
        y: height - BALL_RADIUS * 2,
        dx: 2 * SPEED,
        dy: -2 * SPEED,
        speed: INIT_SPEED as nat,
    }
}

/// Ball, paddle and game after the ball has met whatever lies in its way,
/// before anything moves. `bounce` is the velocity the paddle gives the ball.
pub open spec fn rebound(
    b: BallView,
    p: PaddleView,
    g: GameView,
    width: int,
    height: int,
    bounce: (int, int),
) -> (BallView, PaddleView, GameView) {
    let b1 = if hits_side_wall(b, width) {
        BallView { dx: -b.dx, ..b }
    } else {
        b
    };
    if hits_ceiling(b1) {
        (BallView { dy: -b1.dy, ..b1 }, p, g)
    } else if reaches_floor(b1, height) {
        if over_paddle(b1, p) {
            (BallView { dx: bounce.0, dy: bounce.1, speed: ramp(b1.speed), ..b1 }, p, g)
        } else {
            let g1 = GameView { status: Status::Stop, lives: (g.lives - 1) as nat, ..g };
            if g1.lives == 0 {
                (BallView { dy: -b1.dy, ..b1 }, p, g1)
            } else {
                (served(width, height), PaddleView { x: centred_paddle(width), ..p }, g1)
            }
        }
    } else {
        (b1, p, g)
    }
}

/// The paddle after the held arrow keys have moved it, as far as the walls
/// let them; the right key wins over the left.
pub open spec fn steer(p: PaddleView, width: int) -> PaddleView {
    if p.right_pressed && p.x < width - PADDLE_WIDTH {
        PaddleView { x: p.x + PADDLE_STEP, ..p }
    } else if p.left_pressed && p.x > 0 {
        PaddleView { x: p.x - PADDLE_STEP, ..p }
    } else {
        p
    }
}

/// The ball after one step along its velocity.
pub open spec fn advance(b: BallView) -> BallView {
    BallView { x: b.x + b.dx, y: b.y + b.dy, ..b }
}

/// Ball, paddle and game after one physics step.
pub open spec fn step(
    b: BallView,
    p: PaddleView,
    g: GameView,
    width: int,
    height: int,
    bounce: (int, int),
) -> (BallView, PaddleView, GameView) {
    if g.status != Status::Start {
        (b, p, g)
    } else {
        let (b1, p1, g1) = rebound(b, p, g, width, height, bounce);
        (advance(b1), steer(p1, width), g1)
    }
}

/// What one physics step amounts to.
pub open spec fn step_outcome(b: BallView, p: PaddleView, g: GameView, width: int, height: int) -> Outcome {
    let b1 = if hits_side_wall(b, width) {
        BallView { dx: -b.dx, ..b }
    } else {
        b
    };
    if g.status != Status::Start {
        Outcome::Paused
    } else if !hits_ceiling(b1) && reaches_floor(b1, height) && !over_paddle(b1, p) {
        if g.lives == 1 {
            Outcome::GameOver
        } else {
            Outcome::BallLost
        }
    } else {
        Outcome::Running
    }
}

/// Advances the game by one physics step on a canvas of `width` by `height`.
/// Where the ball lands on the paddle it leaves with the velocity
/// `(bounce_dx, bounce_dy)`, which the caller derives from where it landed.
pub fn update(
    ball: &mut Ball,
    paddle: &mut Paddle,
    status: &mut GameStatus,
    width: i64,
    height: i64,
    bounce_dx: i64,
    bounce_dy: i64,
) -> (r: Outcome)
    requires
        old(ball)@.in_range(),
        bounded(old(paddle)@.x),
        0 <= width <= COORD_LIMIT,
        0 <= height <= COORD_LIMIT,
        bounded(bounce_dx as int),
        bounded(bounce_dy as int),
        old(status)@.status == Status::Start ==> old(status)@.lives > 0,
    ensures
        (final(ball)@, final(paddle)@, final(status)@) == step(
            old(ball)@,
            old(paddle)@,
            old(status)@,
            width as int,
            height as int,
            (bounce_dx as int, bounce_dy as int),
        ),
        r == step_outcome(old(ball)@, old(paddle)@, old(status)@, width as int, height as int),
{
    if status.get_status() != Status::Start {
        return Outcome::Paused;
    }
    let mut outcome = Outcome::Running;
    if ball.get_x() + ball.get_dx() > width - BALL_RADIUS || ball.get_x() + ball.get_dx()
        < BALL_RADIUS {
        ball.set_dx(-ball.get_dx());
    }
    if ball.get_y() + ball.get_dy() < BALL_RADIUS {
        ball.set_dy(-ball.get_dy());
    } else if ball.get_y() + ball.get_dy() > height - BALL_RADIUS {
        if ball.get_x() > paddle.get_x() && ball.get_x() < paddle.get_x() + PADDLE_WIDTH {
            ball.set_dx(bounce_dx);
            ball.set_dy(bounce_dy);
            ball.add_speed();
        } else {
            ball.set_dy(-ball.get_dy());
            status.set_status(Status::Stop);
            status.set_lives(status.get_lives() - 1);
            if status.get_lives() == 0 {
                outcome = Outcome::GameOver;
            } else {
                outcome = Outcome::BallLost;
                ball.set_x(width / 2);
                ball.set_y(height - BALL_RADIUS * 2);
                ball.set_dx(2 * SPEED);
                ball.set_dy(-2 * SPEED);
                ball.init_speed();
                paddle.set_x(width / 2 - PADDLE_WIDTH / 2);
            }
        }
    }
    if paddle.get_right_pressed() && paddle.get_x() < width - PADDLE_WIDTH {
        paddle.set_x(paddle.get_x() + PADDLE_STEP);
    } else if paddle.get_left_pressed() && paddle.get_x() > 0 {
        paddle.set_x(paddle.get_x() - PADDLE_STEP);
    }
    ball.set_x(ball.get_x() + ball.get_dx());
    ball.set_y(ball.get_y() + ball.get_dy());
    outcome
}

/// How far right of the paddle's middle the ball's right edge is: what
/// decides the angle at which the paddle sends the ball back.
pub fn paddle_offset(ball: &Ball, paddle: &Paddle) -> (r: i64)
    requires
        bounded(ball@.x),
        bounded(paddle@.x),
    ensures
        r == (ball@.x + BALL_RADIUS) - (paddle@.x + PADDLE_WIDTH / 2),
{
    (ball.get_x() + BALL_RADIUS) - (paddle.get_x() + PADDLE_WIDTH / 2)
}

/// Follows the pointer at `relative_x` from the canvas's left edge: inside
/// the canvas the paddle centres on it, and until the game runs the ball
/// waits above it.
pub fn follow_pointer(
    paddle: &mut Paddle,
    ball: &mut Ball,
    status: &GameStatus,
    relative_x: i64,
    width: i64,
)
    ensures
        0 < relative_x < width ==> final(paddle)@ == (PaddleView {
            x: relative_x - PADDLE_WIDTH / 2,
            ..old(paddle)@
        }),
        0 < relative_x < width && status@.status != Status::Start ==> final(ball)@ == (BallView {
            x: relative_x as int,
            ..old(ball)@
        }),
        !(0 < relative_x < width) ==> final(paddle)@ == old(paddle)@,
        !(0 < relative_x < width && status@.status != Status::Start) ==> final(ball)@ == old(ball)@,
{
    if relative_x > 0 && relative_x < width {
        paddle.set_x(relative_x - PADDLE_WIDTH / 2);
        if status.get_status() != Status::Start {
            ball.set_x(relative_x);
        }
    }
}

/// Records that an arrow key went down (`pressed`) or up.
pub fn handle_key(paddle: &mut Paddle, key: Key, pressed: bool)
    ensures
        final(paddle)@ == match key {
            Key::Right => PaddleView { right_pressed: pressed, ..old(paddle)@ },
            Key::Left => PaddleView { left_pressed: pressed, ..old(paddle)@ },
            Key::Other => old(paddle)@,
        },
{
    match key {
        Key::Right => paddle.set_right_pressed(pressed),
        Key::Left => paddle.set_left_pressed(pressed),
        Key::Other => {},
    }
}

} // verus!
