//! Game, display and input logic for an 8x8 LED dot-matrix handheld.
pub mod common;
pub mod dot;
pub mod dot_screen;
pub mod inputs;
pub mod joystick;
pub mod max7219;
pub mod random;
pub mod selection;
pub mod snake;

pub use common::Direction;
pub use dot::Dot;
pub use dot_screen::{DotScreen, IterDotScreen};
pub use inputs::{InputPeripheral, PollArray};
pub use joystick::{InputSignal, JoyStick, JoyStickSignal};
pub use random::XOrShiftPrng;
pub use selection::{DotGame, MenuAction, SelectionScreen};
pub use snake::{SnakeGame, UpdateResult};
