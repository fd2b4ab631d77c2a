use vstd::prelude::*;
use crate::consts::{DEFAULT_LIVES, DEFAULT_SCORE};

verus! {

/// Where a game stands: waiting for the first click, paused after a lost
/// ball, or running.
#[derive(Debug, Clone, Copy, PartialEq, Eq, Structural)]
pub enum Status {
    Prepare,
    Stop,
    Start,
}

/// Score, remaining lives and lifecycle of one game.
#[derive(Debug, Clone, Copy)]
pub struct GameStatus {
    score: u32,
    lives: u32,
    status: Status,
}

pub ghost struct GameView {
    pub score: nat,
    pub lives: nat,
    pub status: Status,
}

impl View for GameStatus {
    type V = GameView;

    closed spec fn view(&self) -> GameView {
        GameView { score: self.score as nat, lives: self.lives as nat, status: self.status }
    }
}

impl GameStatus {
    pub fn set_score(&mut self, score: u32)
        ensures
            final(self)@ == (GameView { score: score as nat, ..old(self)@ }),
    {
        self.score = score;
    }

    pub fn get_score(&self) -> (r: u32)
        ensures
            r == self@.score,
    {
        self.score
    }

    pub fn set_lives(&mut self, lives: u32)
        ensures
            final(self)@ == (GameView { lives: lives as nat, ..old(self)@ }),
    {
        self.lives = lives;
    }

    pub fn get_lives(&self) -> (r: u32)
        ensures
            r == self@.lives,
    {
        self.lives
    }

    pub fn get_status(&self) -> (r: Status)
        ensures
            r == self@.status,
    {
        self.status
    }

    pub fn set_status(&mut self, status: Status)
        ensures
            final(self)@ == (GameView { status, ..old(self)@ }),
    {
        self.status = status;
    }

    pub fn new() -> (r: GameStatus)
        ensures
            r@ == (GameView { score: DEFAULT_SCORE as nat, lives: DEFAULT_LIVES as nat, status: Status::Prepare }),
    {
        GameStatus { score: DEFAULT_SCORE, lives: DEFAULT_LIVES, status: Status::Prepare }
    }
}

} // verus!
