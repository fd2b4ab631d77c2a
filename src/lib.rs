//! A brick-breaking game: a ball bounces between a paddle, the walls and a
//! board of bricks, with score, lives and a speed that ramps up with every
//! hit. Lengths are integers in hundredths of a canvas pixel.

pub mod consts;
pub mod ball;
pub mod bricks;
pub mod container;
pub mod game_status;
pub mod paddle;
pub mod physics;

pub use ball::Ball;
pub use bricks::{Brick, BrickStatus};
pub use container::{Bricks, Container};
pub use game_status::{GameStatus, Status};
pub use paddle::Paddle;
pub use physics::update;
