use vstd::prelude::*;
use crate::consts::{bounded, within_limit, INIT_SPEED, MAX_SPEED};

verus! {

/// The ball: centre, velocity per physics step, and the number of physics
/// steps it takes per frame.
#[derive(Debug, Clone, Copy)]
pub struct Ball {
    dy: i64,
    dx: i64,
    x: i64,
    y: i64,
    speed: usize,
}

pub ghost struct BallView {
    pub x: int,
    pub y: int,
    pub dx: int,
    pub dy: int,
    pub speed: nat,
}

impl BallView {
    /// Position and velocity lie within the range the physics accepts.
    pub open spec fn in_range(self) -> bool {
        bounded(self.x) && bounded(self.y) && bounded(self.dx) && bounded(self.dy)
    }
}

impl View for Ball {
    type V = BallView;

    closed spec fn view(&self) -> BallView {
        BallView {
            x: self.x as int,
            y: self.y as int,
            dx: self.dx as int,
            dy: self.dy as int,
            speed: self.speed as nat,
        }
    }
}

/// The speed after one ramp-up: one more step per frame, up to the cap.
pub open spec fn ramp(speed: nat) -> nat {
    if speed >= MAX_SPEED {
        speed
    } else {
        speed + 1
    }
}

impl Ball {
    pub fn new(dx: i64, dy: i64, x: i64, y: i64) -> (r: Ball)
        ensures
            r@ == (BallView { x: x as int, y: y as int, dx: dx as int, dy: dy as int, speed: INIT_SPEED as nat }),
    {
        Ball { dx, dy, x, y, speed: INIT_SPEED }
    }

    pub fn get_x(&self) -> (r: i64)
        ensures
            r == self@.x,
    {
        self.x
    }

    pub fn set_x(&mut self, x: i64)
        ensures
            final(self)@ == (BallView { x: x as int, ..old(self)@ }),
    {
        self.x = x;
    }

    pub fn get_y(&self) -> (r: i64)
        ensures
            r == self@.y,
    {
        self.y
    }

    pub fn set_y(&mut self, y: i64)
        ensures
            final(self)@ == (BallView { y: y as int, ..old(self)@ }),
    {
        self.y = y;
    }

    pub fn get_dx(&self) -> (r: i64)
        ensures
            r == self@.dx,
    {
        self.dx
    }

    pub fn set_dx(&mut self, dx: i64)
        ensures
            final(self)@ == (BallView { dx: dx as int, ..old(self)@ }),
    {
        self.dx = dx;
    }

    pub fn get_dy(&self) -> (r: i64)
        ensures
            r == self@.dy,
    {
        self.dy
    }

    pub fn set_dy(&mut self, dy: i64)
        ensures
            final(self)@ == (BallView { dy: dy as int, ..old(self)@ }),
    {
        self.dy = dy;
    }

    pub fn get_speed(&self) -> (r: usize)
        ensures
            r == self@.speed,
    {
        self.speed
    }

    pub fn init_speed(&mut self)
        ensures
            final(self)@ == (BallView { speed: INIT_SPEED as nat, ..old(self)@ }),
    {
        self.speed = INIT_SPEED;
    }

    pub fn add_speed(&mut self)
        ensures
            final(self)@ == (BallView { speed: ramp(old(self)@.speed), ..old(self)@ }),
    {
        if self.speed >= MAX_SPEED {
            return;
        }
        self.speed = self.speed + 1;
    }

    /// Whether position and velocity lie within the range the physics accepts.
    pub fn in_range(&self) -> (r: bool)
        ensures
            r == self@.in_range(),
    {
        within_limit(self.x) && within_limit(self.y) && within_limit(self.dx) && within_limit(
            self.dy,
        )
    }
}

} // verus!
