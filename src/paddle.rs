use vstd::prelude::*;

verus! {

/// The paddle: its left edge and which arrow keys are held.
#[derive(Debug, Clone, Copy)]
pub struct Paddle {
    x: i64,
    right_pressed: bool,
    left_pressed: bool,
}

pub ghost struct PaddleView {
    pub x: int,
    pub right_pressed: bool,
    pub left_pressed: bool,
}

impl View for Paddle {
    type V = PaddleView;

    closed spec fn view(&self) -> PaddleView {
        PaddleView { x: self.x as int, right_pressed: self.right_pressed, left_pressed: self.left_pressed }
    }
}

impl Paddle {
    pub fn new(x: i64) -> (r: Paddle)
        ensures
            r@ == (PaddleView { x: x as int, right_pressed: false, left_pressed: false }),
    {
        Paddle { x, right_pressed: false, left_pressed: false }
    }

    pub fn get_x(&self) -> (r: i64)
        ensures
            r == self@.x,
    {
        self.x
    }

    pub fn set_x(&mut self, x: i64)
        ensures
            final(self)@ == (PaddleView { x: x as int, ..old(self)@ }),
    {
        self.x = x;
    }

    pub fn get_right_pressed(&self) -> (r: bool)
        ensures
            r == self@.right_pressed,
    {
        self.right_pressed
    }

    pub fn set_right_pressed(&mut self, right_pressed: bool)
        ensures
            final(self)@ == (PaddleView { right_pressed, ..old(self)@ }),
    {
        self.right_pressed = right_pressed;
    }

    pub fn get_left_pressed(&self) -> (r: bool)
        ensures
            r == self@.left_pressed,
    {
        self.left_pressed
    }

    pub fn set_left_pressed(&mut self, left_pressed: bool)
        ensures
            final(self)@ == (PaddleView { left_pressed, ..old(self)@ }),
    {
        self.left_pressed = left_pressed;
    }
}

} // verus!
