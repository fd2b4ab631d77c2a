use vstd::prelude::*;
use crate::consts::{
    BRICK_HEIGHT, BRICK_OFFSET_LEFT, BRICK_OFFSET_TOP, BRICK_PADDING, BRICK_WIDTH,
};

verus! {

#[derive(Debug, Clone, Copy, PartialEq, Eq, Structural)]
pub enum BrickStatus {
    Live,
    Dead,
}

/// One brick of the board: its top-left corner, whether it still stands, and
/// its hit points.
#[derive(Debug, Clone, Copy)]
pub struct Brick {
    x: i64,
    y: i64,
    status: BrickStatus,
    life: u32,
}

pub ghost struct BrickView {
    pub x: int,
    pub y: int,
    pub status: BrickStatus,
    pub life: nat,
}

impl View for Brick {
    type V = BrickView;

    closed spec fn view(&self) -> BrickView {
        BrickView { x: self.x as int, y: self.y as int, status: self.status, life: self.life as nat }
    }
}

/// Left edge of the bricks in column `col`.
pub open spec fn column_left(col: int) -> int {
    col * (BRICK_WIDTH + BRICK_PADDING) + BRICK_OFFSET_LEFT
}

/// Top edge of the bricks in row `row`.
pub open spec fn row_top(row: int) -> int {
    row * (BRICK_HEIGHT + BRICK_PADDING) + BRICK_OFFSET_TOP
}

impl Brick {
    pub fn new(x: i64, y: i64, status: BrickStatus) -> (r: Brick)
        ensures
            r@ == (BrickView { x: x as int, y: y as int, status, life: 1 }),
    {
        Brick { x, y, status, life: 1 }
    }

    /// Places the brick at its slot of the board.
    pub fn set_x_and_y_from_col_row(&mut self, col: usize, row: usize)
        requires
            column_left(col as int) <= i64::MAX,
            row_top(row as int) <= i64::MAX,
        ensures
            final(self)@ == (BrickView {
                x: column_left(col as int),
                y: row_top(row as int),
                ..old(self)@
            }),
    {
        let across: i64 = BRICK_WIDTH + BRICK_PADDING;
        let down: i64 = BRICK_HEIGHT + BRICK_PADDING;
        proof {
            assert(0 <= col as int <= col as int * across) by (nonlinear_arith)
                requires
                    across >= 1,
            ;
            assert(0 <= row as int <= row as int * down) by (nonlinear_arith)
                requires
                    down >= 1,
            ;
        }
        self.x = col as i64 * across + BRICK_OFFSET_LEFT;
        self.y = row as i64 * down + BRICK_OFFSET_TOP;
    }

    pub fn get_x(&self) -> (r: i64)
        ensures
            r == self@.x,
    {
        self.x
    }

    pub fn set_x(&mut self, x: i64)
        ensures
            final(self)@ == (BrickView { x: x as int, ..old(self)@ }),
    {
        self.x = x;
    }

    pub fn get_y(&self) -> (r: i64)
        ensures
            r == self@.y,
    {
        self.y
    }

    pub fn set_y(&mut self, y: i64)
        ensures
            final(self)@ == (BrickView { y: y as int, ..old(self)@ }),
    {
        self.y = y;
    }

    pub fn set_status(&mut self, status: BrickStatus)
        ensures
            final(self)@ == (BrickView { status, ..old(self)@ }),
    {
        self.status = status;
    }

    pub fn get_status(&self) -> (r: BrickStatus)
        ensures
            r == self@.status,
    {
        self.status
    }

    /// Takes the hit points a strike removes: all of them, so the brick
    /// falls, and returns its new status.
    pub fn update_status(&mut self) -> (r: BrickStatus)
        ensures
            final(self)@ == (BrickView { status: BrickStatus::Dead, life: 0, ..old(self)@ }),
            r == BrickStatus::Dead,
    {
        self.life = self.life - self.life;
        if self.life == 0 {
            self.status = BrickStatus::Dead;
        }
        self.status
    }
}

} // verus!
