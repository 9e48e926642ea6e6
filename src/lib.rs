//! A simulator for a single robot on a rectangular grid, driven by a
//! textual command script.

mod actions;
mod errors;
mod field;
mod game;
mod position;
mod robot;
mod text;

pub use crate::actions::{parse_action, Action, ParseOutcome, RobotRequiredAction};
pub use crate::errors::RobotError;
pub use crate::field::Field;
pub use crate::game::Game;
pub use crate::position::{parse_direction, Direction, Position};
pub use crate::robot::Robot;
