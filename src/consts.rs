//! Dimensions and tuning of the game. Lengths are in units of a hundredth of
//! a canvas pixel, so that every position the game computes is an integer.

use vstd::prelude::*;

verus! {

/// Length units per canvas pixel.
pub const UNITS_PER_PIXEL: i64 = 100;

/// Largest magnitude of a coordinate or velocity that the physics accepts;
/// sums of a few such values stay far from the range of `i64`.
pub const COORD_LIMIT: i64 = 1152921504606846976;

pub const BALL_RADIUS: i64 = 1000;

pub const PADDLE_WIDTH: i64 = 7500;

pub const PADDLE_HEIGHT: i64 = 1000;

/// How far a pressed arrow key moves the paddle in one physics step.
pub const PADDLE_STEP: i64 = 700;

pub const BRICK_COLUMN_COUNT: usize = 5;

pub const BRICK_ROW_COUNT: usize = 3;

/// Number of bricks on the board: the score that wins the game.
pub const BRICK_SUM: u32 = 15;

pub const BRICK_WIDTH: i64 = 7500;

pub const BRICK_HEIGHT: i64 = 2000;

pub const BRICK_PADDING: i64 = 1000;

pub const BRICK_OFFSET_TOP: i64 = 3000;

pub const BRICK_OFFSET_LEFT: i64 = 3000;

pub const DEFAULT_LIVES: u32 = 3;

pub const DEFAULT_SCORE: u32 = 0;

/// Physics steps per frame when a ball is served.
pub const INIT_SPEED: usize = 2;

/// Cap on the physics steps per frame.
pub const MAX_SPEED: usize = 80;

/// Half of each velocity component of a freshly served ball.
pub const SPEED: i64 = 50;

/// Whether `v` lies within the range the physics accepts.
pub open spec fn bounded(v: int) -> bool {
    -COORD_LIMIT <= v <= COORD_LIMIT
}

} // verus!

verus! {

/// Whether `v` lies within the range the physics accepts.
pub fn within_limit(v: i64) -> (r: bool)
    ensures
        r == bounded(v as int),
{
    -COORD_LIMIT <= v && v <= COORD_LIMIT
}

} // verus!
