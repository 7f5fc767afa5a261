pub mod editing;
pub mod engine;
pub mod file;
pub mod input;
pub mod movement;
pub mod rendering;
pub mod selection;

pub use engine::{Direction, Editor, State};
pub use input::{Command, Key, Request};
pub use movement::{Modifiers, MouseInput};
