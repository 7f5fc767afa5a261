pub mod action;
pub mod undo_stack;

pub use action::{Action, ActionType, Edit};
pub use undo_stack::{UndoNode, UndoStack};
