//! The editable-text core of a terminal text editor.
//!
//! A document is a sequence of lines, a line a sequence of grapheme clusters.
//! Every change to the document is an [`Action`]; every editing operation
//! records the action together with its exact inverse on a linear
//! [`UndoStack`]. All of it is verified: the contracts are stated over
//! mathematical views (`Seq` of `Seq` of `char`), and the inverse laws are
//! proved once and for all.

pub mod action;
pub mod editor;
pub mod text;
pub mod types;

pub use action::{Action, ActionType, UndoStack};
pub use editor::Editor;
pub use types::{Line, Point};
