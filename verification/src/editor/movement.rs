use crate::editor::engine::{Direction, Editor, State};
use crate::text::{in_text, Text};
use crate::types::line::{column_at_width, saturated, width_of};
use crate::types::point::{Point, Pos};
use vstd::prelude::*;

verus! {

/// The modifier keys that are held with a key. Movement looks at two of
/// them: with Shift it extends the selection, with Super it goes to the end
/// of the row or of the document.
#[derive(Debug, Clone, Copy, PartialEq, Eq, Structural)]
pub struct Modifiers {
    pub shift: bool,
    pub control: bool,
    pub alt: bool,
    pub super_key: bool,
    pub hyper: bool,
    pub meta: bool,
}

/// A mouse event, as far as the editor looks at it.
#[derive(Debug, Clone, Copy, PartialEq, Eq, Structural)]
pub struct MouseInput {
    /// The left button was pressed down.
    pub left_button_down: bool,
    /// The column of the screen under the mouse.
    pub column: u16,
    /// The row of the screen under the mouse.
    pub row: u16,
}

/// Where a window of `extent` cells that starts at `offset` starts after it
/// has followed `target`: at `target` where that lies before the window,
/// `extent - 1` cells before `target` where it lies behind, else unmoved.
pub open spec fn scroll(offset: nat, target: nat, extent: nat) -> nat {
    if target < offset {
        target
    } else if target >= offset + extent {
        (target + 1 - extent) as nat
    } else {
        offset
    }
}

/// The position before `cursor`: one grapheme to the left, or the end of
/// the row above; none at the start of the document.
pub open spec fn previous_pos(t: Text, cursor: Pos) -> Option<Pos> {
    if cursor.x > 0 {
        Some(Pos { x: (cursor.x - 1) as nat, y: cursor.y })
    } else if cursor.y > 0 {
        Some(Pos { x: t[cursor.y - 1].len(), y: (cursor.y - 1) as nat })
    } else {
        None
    }
}

/// The position behind `cursor`: one grapheme to the right, or the start
/// of the row below; none at the end of the document.
pub open spec fn next_pos(t: Text, cursor: Pos) -> Option<Pos> {
    if cursor.x < t[cursor.y as int].len() {
        Some(Pos { x: cursor.x + 1, y: cursor.y })
    } else if cursor.y + 1 < t.len() {
        Some(Pos { x: 0, y: cursor.y + 1 })
    } else {
        None
    }
}

/// The column on `row` that a display column leads to: the grapheme that
/// covers it, or the end of the row where the row is no wider.
pub open spec fn column_for_width(row: Seq<Seq<char>>, goal: nat) -> nat {
    match column_at_width(row, goal) {
        Some(x) => x,
        None => row.len(),
    }
}

impl State {
    /// The end of the document.
    pub open spec fn last_pos(self) -> Pos {
        let y = (self.content.len() - 1) as nat;
        Pos { x: self.content[y as int].len(), y }
    }

    /// Where a step up or down leads: to the row above or below, at the
    /// grapheme under the preferred display column; nowhere from the first
    /// row up or from the last row down.
    pub open spec fn vertical_step(self, up: bool) -> Pos {
        let y = if up {
            if self.cursor.y > 0 {
                (self.cursor.y - 1) as nat
            } else {
                0
            }
        } else {
            if self.cursor.y + 1 < self.content.len() {
                self.cursor.y + 1
            } else {
                (self.content.len() - 1) as nat
            }
        };
        if y == self.cursor.y {
            self.cursor
        } else {
            Pos { x: column_for_width(self.content[y as int], self.preferred_width), y }
        }
    }

    /// Where a jump to the left leads: to the start of the row, or from
    /// there to the end of the row above.
    pub open spec fn jump_left(self) -> Pos {
        if self.cursor.x > 0 {
            Pos { x: 0, y: self.cursor.y }
        } else if self.cursor.y > 0 {
            Pos { x: self.content[self.cursor.y - 1].len(), y: (self.cursor.y - 1) as nat }
        } else {
            self.cursor
        }
    }

    /// Where a jump to the right leads: to the end of the row, or from
    /// there to the start of the row below.
    pub open spec fn jump_right(self) -> Pos {
        if self.cursor.x != self.current_line().len() {
            Pos { x: self.current_line().len(), y: self.cursor.y }
        } else if self.cursor.y + 1 < self.content.len() {
            Pos { x: 0, y: self.cursor.y + 1 }
        } else {
            self.cursor
        }
    }

    /// Where a movement leads. With Super: up and down to the start and
    /// the end of the document, left and right by jumps. Without: up and
    /// down by rows, left and right by graphemes, over row ends too.
    pub open spec fn movement_target(self, direction: Direction, super_key: bool) -> Pos {
        match direction {
            Direction::Up => if super_key {
                Pos { x: 0, y: 0 }
            } else {
                self.vertical_step(true)
            },
            Direction::Down => if super_key {
                self.last_pos()
            } else {
                self.vertical_step(false)
            },
            Direction::Left => if super_key {
                self.jump_left()
            } else {
                match previous_pos(self.content, self.cursor) {
                    Some(p) => p,
                    None => self.cursor,
                }
            },
            Direction::Right => if super_key {
                self.jump_right()
            } else {
                match next_pos(self.content, self.cursor) {
                    Some(p) => p,
                    None => self.cursor,
                }
            },
        }
    }

    /// The preferred display column after a movement: 0 after a jump up or
    /// down, the display column of the target after a step left or right,
    /// else as before.
    pub open spec fn movement_width(self, direction: Direction, super_key: bool) -> nat {
        let vertical = direction == Direction::Up || direction == Direction::Down;
        let target = self.movement_target(direction, super_key);
        if vertical && super_key {
            0
        } else if !vertical && !super_key {
            saturated(width_of(self.content[target.y as int], target.x)) as nat
        } else {
            self.preferred_width
        }
    }

    /// The state after a movement key: the preferred column is set, the
    /// selection is extended to the target with Shift and dropped without,
    /// and the cursor is at the target.
    pub open spec fn after_movement(self, direction: Direction, modifiers: Modifiers) -> State {
        let target = self.movement_target(direction, modifiers.super_key);
        let aimed = State {
            preferred_width: self.movement_width(direction, modifiers.super_key),
            ..self
        };
        let selected = if modifiers.shift {
            aimed.selecting(self.cursor, target)
        } else {
            State { selection: None, ..aimed }
        };
        selected.moved_to(target)
    }

    /// The row of the document under the screen row `row`.
    pub open spec fn clicked_row(self, row: u16) -> nat {
        row as nat + self.offset.y
    }

    /// The display column that a click on screen column `column` aims at,
    /// capped at `usize::MAX`. On the row of the cursor the width of the
    /// first `offset.x` graphemes of the row is added.
    pub open spec fn clicked_width(self, input: MouseInput) -> nat {
        let y = self.clicked_row(input.row);
        let shift = if y == self.cursor.y {
            saturated(width_of(self.content[y as int], self.offset.x)) as nat
        } else {
            0
        };
        saturated(input.column as nat + shift) as nat
    }

    /// The state after a mouse event. A press of the left button puts the
    /// cursor on the clicked row at the grapheme under the clicked display
    /// column, makes that column the preferred one, and, on another row
    /// than the cursor's, sets the horizontal offset to 0. Any other event
    /// changes nothing.
    pub open spec fn after_mouse(self, input: MouseInput) -> State {
        if input.left_button_down {
            let y = self.clicked_row(input.row);
            let goal = self.clicked_width(input);
            State {
                cursor: Pos { x: column_for_width(self.content[y as int], goal), y },
                offset: if y == self.cursor.y {
                    self.offset
                } else {
                    Pos { x: 0, y: self.offset.y }
                },
                preferred_width: goal,
                ..self
            }
        } else {
            self
        }
    }

    /// The display column of the cursor, capped at `usize::MAX`.
    pub open spec fn cursor_column(self) -> nat {
        saturated(width_of(self.current_line(), self.cursor.x)) as nat
    }

    /// The state after the screen has followed the cursor.
    pub open spec fn scrolled(self) -> State {
        State {
            offset: Pos {
                x: saturated(scroll(self.offset.x, self.cursor_column(), self.dimensions.x)) as nat,
                y: scroll(self.offset.y, self.cursor.y, self.dimensions.y),
            },
            ..self
        }
    }

    /// The state after the cursor was put at `destination`.
    pub open spec fn moved_to(self, destination: Pos) -> State {
        State { cursor: destination, ..self }.scrolled()
    }
}

impl Editor {
    /// Moves the screen so that it shows the cursor.
    pub fn adjust_offset(&mut self)
        requires
            old(self)@.cursor.y < old(self)@.content.len(),
        ensures
            final(self)@ == old(self)@.scrolled(),
    {
        let dims_width = self.dimensions.x;
        let dims_height = self.dimensions.y;
        assert(self.cursor.y < self.content.len());
        if self.cursor.y < self.offset.y {
            self.offset.y = self.cursor.y;
        } else if self.cursor.y - self.offset.y >= dims_height {
            self.offset.y = self.cursor.y - dims_height + 1;
        }
        let target_width = self.get_current_line().width_to(self.cursor.x);
        if target_width < self.offset.x {
            self.offset.x = target_width;
        } else if target_width - self.offset.x >= dims_width {
            let base = target_width - dims_width;
            self.offset.x = if base == usize::MAX {
                usize::MAX
            } else {
                base + 1
            };
        }
    }

    /// The position before the cursor, if there is one.
    pub fn get_previous_point(&self) -> (point: Option<Point>)
        requires
            self@.cursor.y < self@.content.len(),
        ensures
            match point {
                Some(p) => previous_pos(self@.content, self@.cursor) == Some(p@),
                None => previous_pos(self@.content, self@.cursor) is None,
            },
    {
        if self.cursor.x > 0 {
            Some(Point::new(self.cursor.x - 1, self.cursor.y))
        } else if self.cursor.y > 0 {
            let previous_line = &self.content[self.cursor.y - 1];
            Some(Point::new(previous_line.len(), self.cursor.y - 1))
        } else {
            None
        }
    }

    /// The position behind the cursor, if there is one.
    pub fn get_next_point(&self) -> (point: Option<Point>)
        requires
            self@.cursor.y < self@.content.len(),
        ensures
            match point {
                Some(p) => next_pos(self@.content, self@.cursor) == Some(p@),
                None => next_pos(self@.content, self@.cursor) is None,
            },
    {
        let current_line = self.get_current_line();
        if self.cursor.x < current_line.len() {
            Some(Point::new(self.cursor.x + 1, self.cursor.y))
        } else if self.cursor.y < self.content.len() - 1 {
            Some(Point::new(0, self.cursor.y + 1))
        } else {
            None
        }
    }

    /// The column on row `y` under the display column `goal`.
    fn column_on_row(&self, y: usize, goal: usize) -> (x: usize)
        requires
            y < self@.content.len(),
        ensures
            x == column_for_width(self@.content[y as int], goal as nat),
            x <= self@.content[y as int].len(),
    {
        let line = &self.content[y];
        match line.x_at_width(goal) {
            Some(x) => x,
            None => line.len(),
        }
    }

    /// Where the movement leads.
    fn target_of(&self, direction: Direction, super_key: bool) -> (target: Point)
        requires
            self@.content.len() >= 1,
            in_text(self@.content, self@.cursor),
        ensures
            target@ == self@.movement_target(direction, super_key),
            in_text(self@.content, target@),
    {
        let x_old = self.cursor.x;
        let y_old = self.cursor.y;
        let rows = self.content.len();
        match direction {
            Direction::Up => {
                if super_key {
                    Point::new(0, 0)
                } else if y_old > 0 {
                    Point::new(self.column_on_row(y_old - 1, self.preferred_width), y_old - 1)
                } else {
                    self.cursor
                }
            },
            Direction::Down => {
                if super_key {
                    Point::new(self.content[rows - 1].len(), rows - 1)
                } else if y_old + 1 < rows {
                    Point::new(self.column_on_row(y_old + 1, self.preferred_width), y_old + 1)
                } else {
                    self.cursor
                }
            },
            Direction::Left => {
                if super_key {
                    if x_old == 0 {
                        if y_old > 0 {
                            Point::new(self.content[y_old - 1].len(), y_old - 1)
                        } else {
                            self.cursor
                        }
                    } else {
                        Point::new(0, y_old)
                    }
                } else {
                    match self.get_previous_point() {
                        Some(p) => p,
                        None => self.cursor,
                    }
                }
            },
            Direction::Right => {
                if super_key {
                    let end = self.get_current_line().len();
                    if x_old == end {
                        if y_old < rows - 1 {
                            Point::new(0, y_old + 1)
                        } else {
                            self.cursor
                        }
                    } else {
                        Point::new(end, y_old)
                    }
                } else {
                    match self.get_next_point() {
                        Some(p) => p,
                        None => self.cursor,
                    }
                }
            },
        }
    }

    /// Moves the cursor one step, or with Super one jump, in `direction`,
    /// and extends the selection with Shift or drops it without.
    pub fn handle_movement_input(&mut self, direction: Direction, modifiers: Modifiers)
        requires
            old(self)@.content.len() >= 1,
            in_text(old(self)@.content, old(self)@.cursor),
        ensures
            final(self)@ == old(self)@.after_movement(direction, modifiers),
            in_text(final(self)@.content, final(self)@.cursor),
            old(self).wf() ==> final(self).wf(),
    {
        let point_old = self.cursor;
        let point_new = self.target_of(direction, modifiers.super_key);
        match direction {
            Direction::Up | Direction::Down => {
                if modifiers.super_key {
                    self.preferred_width = 0;
                }
            },
            Direction::Left | Direction::Right => {
                if !modifiers.super_key {
                    self.preferred_width = self.content[point_new.y].width_to(point_new.x);
                }
            },
        }
        if modifiers.shift {
            self.handle_selection(point_old, point_new);
        } else {
            self.selection = None;
        }
        self.move_cursor(point_new);
    }

    /// Handles a mouse event and says whether it changed anything: a press
    /// of the left button puts the cursor under the mouse. The clicked row
    /// must be a row of the document.
    pub fn handle_mouse_event(&mut self, input: MouseInput) -> (changed: bool)
        requires
            input.left_button_down ==> old(self)@.clicked_row(input.row) < old(self)@.content.len(),
        ensures
            final(self)@ == old(self)@.after_mouse(input),
            changed == input.left_button_down,
            input.left_button_down ==> in_text(final(self)@.content, final(self)@.cursor),
            old(self).wf() ==> final(self).wf(),
    {
        if input.left_button_down {
            let click_y = input.row as usize;
            let click_x = input.column as usize;
            assert(self@.clicked_row(input.row) < self.content.len());
            let y_new = click_y + self.offset.y;
            let offset_width = if y_new == self.cursor.y {
                self.content[y_new].width_to(self.offset.x)
            } else {
                0
            };
            let width_goal = if click_x > usize::MAX - offset_width {
                usize::MAX
            } else {
                click_x + offset_width
            };
            if y_new != self.cursor.y {
                self.offset.x = 0;
            }
            self.cursor.x = self.column_on_row(y_new, width_goal);
            self.cursor.y = y_new;
            self.preferred_width = width_goal;
            return true;
        }
        false
    }

    /// Puts the cursor at `destination` and lets the screen follow.
    pub fn move_cursor(&mut self, destination: Point)
        requires
            in_text(old(self)@.content, destination@),
        ensures
            final(self)@ == old(self)@.moved_to(destination@),
    {
        self.cursor = destination;
        self.adjust_offset();
    }
}

} // verus!
