use crate::editor::engine::{Direction, Editor, State};
use crate::editor::movement::Modifiers;
use vstd::prelude::*;

verus! {

/// A key of the keyboard, as far as the editor tells keys apart.
#[derive(Debug, Clone, Copy, PartialEq, Eq, Structural)]
pub enum Key {
    Char(char),
    Up,
    Down,
    Left,
    Right,
    Backspace,
    Tab,
    Enter,
    Other,
}

/// What a key asks for.
#[derive(Debug, Clone, Copy, PartialEq, Eq, Structural)]
pub enum Command {
    Quit,
    Save,
    Copy,
    Paste,
    Undo,
    Redo,
    Move(Direction),
    RemoveChar,
    InsertChar(char),
    InsertNewline,
    Ignore,
}

/// What the program around the editor has to do after a key.
#[derive(Debug, Clone, Copy, PartialEq, Eq, Structural)]
pub enum Request {
    /// Leave the editor.
    Quit,
    /// Write the document to its file, report the outcome with
    /// `save_file`, and draw the screen.
    Save,
    /// Draw the screen.
    Draw,
}

impl Modifiers {
    /// Control is held, and nothing else.
    pub open spec fn only_control(self) -> bool {
        self.control && !self.shift && !self.alt && !self.super_key && !self.hyper && !self.meta
    }

    /// Nothing is held but, perhaps, Shift.
    pub open spec fn at_most_shift(self) -> bool {
        !self.control && !self.alt && !self.super_key && !self.hyper && !self.meta
    }
}

/// The command that a key with its modifiers asks for. With Control alone,
/// `q`, `s`, `c`, `v`, `z` and `y` quit, save, copy, paste, undo and redo.
/// The arrows move, whatever is held. Backspace, Tab and Enter delete,
/// insert a tab and split the row, whatever is held. Any other character is
/// typed where nothing or only Shift is held. All else is ignored.
pub open spec fn command_of(key: Key, modifiers: Modifiers) -> Command {
    match key {
        Key::Char(c) => if modifiers.only_control() {
            if c == 'q' {
                Command::Quit
            } else if c == 's' {
                Command::Save
            } else if c == 'c' {
                Command::Copy
            } else if c == 'v' {
                Command::Paste
            } else if c == 'z' {
                Command::Undo
            } else if c == 'y' {
                Command::Redo
            } else {
                Command::Ignore
            }
        } else if modifiers.at_most_shift() {
            Command::InsertChar(c)
        } else {
            Command::Ignore
        },
        Key::Up => Command::Move(Direction::Up),
        Key::Down => Command::Move(Direction::Down),
        Key::Left => Command::Move(Direction::Left),
        Key::Right => Command::Move(Direction::Right),
        Key::Backspace => Command::RemoveChar,
        Key::Tab => Command::InsertChar('\t'),
        Key::Enter => Command::InsertNewline,
        Key::Other => Command::Ignore,
    }
}

/// What the program around the editor has to do after a command.
pub open spec fn request_of(command: Command) -> Request {
    match command {
        Command::Quit => Request::Quit,
        Command::Save => Request::Save,
        _ => Request::Draw,
    }
}

impl State {
    /// The command can be carried out: for a copy the ends of the
    /// selection lie on their rows, as far as the rows exist; for a paste
    /// the clipboard holds a row.
    pub open spec fn accepts(self, command: Command) -> bool {
        match command {
            Command::Copy => self.selection_readable(),
            Command::Paste => self.clipboard_ready(),
            _ => true,
        }
    }

    /// The state after a command with its modifiers. Quitting and saving
    /// change nothing: they are for the program around the editor.
    pub open spec fn after_command(self, command: Command, modifiers: Modifiers) -> State {
        match command {
            Command::Quit => self,
            Command::Save => self,
            Command::Copy => self.after_copy(),
            Command::Paste => self.after_paste(),
            Command::Undo => self.after_undo(),
            Command::Redo => self.after_redo(),
            Command::Move(direction) => self.after_movement(direction, modifiers),
            Command::RemoveChar => self.after_remove_char(),
            Command::InsertChar(c) => self.after_insert_char(c),
            Command::InsertNewline => self.after_insert_newline(),
            Command::Ignore => self,
        }
    }
}

/// The command that a key with its modifiers asks for.
pub fn command_for(key: Key, modifiers: Modifiers) -> (command: Command)
    ensures
        command == command_of(key, modifiers),
{
    let plain = !modifiers.control && !modifiers.alt && !modifiers.super_key && !modifiers.hyper
        && !modifiers.meta;
    let only_control = modifiers.control && !modifiers.shift && !modifiers.alt
        && !modifiers.super_key && !modifiers.hyper && !modifiers.meta;
    match key {
        Key::Char(c) => {
            if only_control {
                if c == 'q' {
                    Command::Quit
                } else if c == 's' {
                    Command::Save
                } else if c == 'c' {
                    Command::Copy
                } else if c == 'v' {
                    Command::Paste
                } else if c == 'z' {
                    Command::Undo
                } else if c == 'y' {
                    Command::Redo
                } else {
                    Command::Ignore
                }
            } else if plain {
                Command::InsertChar(c)
            } else {
                Command::Ignore
            }
        },
        Key::Up => Command::Move(Direction::Up),
        Key::Down => Command::Move(Direction::Down),
        Key::Left => Command::Move(Direction::Left),
        Key::Right => Command::Move(Direction::Right),
        Key::Backspace => Command::RemoveChar,
        Key::Tab => Command::InsertChar('\t'),
        Key::Enter => Command::InsertNewline,
        Key::Other => Command::Ignore,
    }
}

impl Editor {
    /// Carries out what a key with its modifiers asks of the editor, and
    /// says what is left to do for the program around it.
    pub fn handle_key_event(&mut self, key: Key, modifiers: Modifiers) -> (request: Request)
        requires
            old(self).wf(),
            old(self)@.accepts(command_of(key, modifiers)),
        ensures
            final(self)@ == old(self)@.after_command(command_of(key, modifiers), modifiers),
            request == request_of(command_of(key, modifiers)),
            final(self).wf(),
    {
        match command_for(key, modifiers) {
            Command::Quit => Request::Quit,
            Command::Save => Request::Save,
            Command::Copy => {
                self.copy();
                Request::Draw
            },
            Command::Paste => {
                self.paste();
                Request::Draw
            },
            Command::Undo => {
                self.undo();
                Request::Draw
            },
            Command::Redo => {
                self.redo();
                Request::Draw
            },
            Command::Move(direction) => {
                self.handle_movement_input(direction, modifiers);
                Request::Draw
            },
            Command::RemoveChar => {
                self.remove_char();
                Request::Draw
            },
            Command::InsertChar(c) => {
                self.insert_char(c);
                Request::Draw
            },
            Command::InsertNewline => {
                self.insert_newline();
                Request::Draw
            },
            Command::Ignore => Request::Draw,
        }
    }
}

} // verus!
