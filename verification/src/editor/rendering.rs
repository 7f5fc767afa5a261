use crate::editor::engine::{Editor, State};
use crate::editor::selection::{earlier, later};
use crate::types::line::{saturated, width_of};
use vstd::prelude::*;
use vstd::string::{StringExecFns, StringSliceAdditionalSpecFns};
use vstd::utf8::{decode_utf8, encode_utf8, is_char_boundary};

verus! {

/// The number `n` in decimal digits, the most significant first.
pub open spec fn decimal(n: nat) -> Seq<char>
    decreases n,
{
    let digits = seq!['0', '1', '2', '3', '4', '5', '6', '7', '8', '9'];
    if n < 10 {
        seq![digits[n as int]]
    } else {
        decimal(n / 10).push(digits[(n % 10) as int])
    }
}

/// A text of more than `width` bytes can be cut three bytes before
/// `width`: `width` is at least three, and no character is cut in two.
pub open spec fn can_fit(text: Seq<char>, width: nat) -> bool {
    let bytes = encode_utf8(text);
    bytes.len() > width ==> width >= 3 && is_char_boundary(bytes, width - 3)
}

/// The text as it fits into `width` bytes: itself where it is no longer,
/// else its first `width - 3` bytes and three dots.
pub open spec fn fitted(text: Seq<char>, width: nat) -> Seq<char> {
    let bytes = encode_utf8(text);
    if bytes.len() > width {
        decode_utf8(bytes.take(width - 3)) + "..."@
    } else {
        text
    }
}

/// Calls `u128::to_string` of std. Trusted: the result is the number in
/// decimal digits, without sign or padding.
#[verifier::external_body]
fn decimal_string(n: u128) -> (s: String)
    ensures
        s@ == decimal(n as nat),
{
    n.to_string()
}

/// The text as it fits into `width` bytes.
pub fn fit_text(text: String, width: usize) -> (cut: String)
    requires
        can_fit(text@, width as nat),
    ensures
        cut@ == fitted(text@, width as nat),
{
    broadcast use vstd::utf8::encode_utf8_decode_utf8;

    let s = text.as_str();
    if s.as_bytes().len() > width {
        let (head, _) = s.split_at(width - 3);
        assert(head@ == decode_utf8(encode_utf8(head@)));
        assert(head.spec_bytes() == encode_utf8(text@).take(width - 3));
        let mut cut = head.to_owned();
        cut.append("...");
        cut
    } else {
        text
    }
}

impl State {
    /// The graphemes of row `row` that the selection covers, as the first
    /// index and the index at which it ends: from the start of the
    /// selection, or of the row where the selection began above, to the
    /// end of the selection, or of the row where the selection goes on
    /// below. None where the selection does not touch the row.
    pub open spec fn highlight_on(self, row: nat) -> Option<(nat, nat)> {
        match self.selection {
            Some((p, q)) => {
                let a = earlier(p, q);
                let b = later(p, q);
                let end = self.content[row as int].len();
                if a.y == row && b.y == row {
                    Some((a.x, b.x))
                } else if a.y == row {
                    Some((a.x, end))
                } else if b.y == row {
                    Some((0, b.x))
                } else if a.y < row && row < b.y {
                    Some((0, end))
                } else {
                    None
                }
            },
            None => None,
        }
    }

    /// The text that tells where the cursor stands: the name of the file,
    /// then row and column, both counted from 1.
    pub open spec fn position_text(self) -> Seq<char> {
        " "@ + match self.filename {
            Some(name) => name,
            None => "[No Name]"@,
        } + " \u{e2}\u{20ac}\u{a2} "@ + decimal(self.cursor.y + 1) + ":"@ + decimal(
            self.cursor.x + 1,
        ) + " "@
    }

    /// The text of the status line: the status message where there is one
    /// and it is fresh, else where the cursor stands.
    pub open spec fn status_text(self, fresh: bool) -> Seq<char> {
        match self.status {
            Some(status) => if fresh {
                status.text@
            } else {
                self.position_text()
            },
            None => self.position_text(),
        }
    }

    /// Where on the screen the cursor is drawn, as display column and
    /// screen row; none where the row of the cursor lies below the screen.
    /// The column counts from the width of the first `offset.x` graphemes
    /// of the row, and a cursor that stands on a grapheme is kept within
    /// the screen.
    pub open spec fn screen_cursor(self) -> Option<(nat, nat)> {
        let line = self.current_line();
        let column = saturated(width_of(line, self.cursor.x)) as nat;
        let hidden = saturated(width_of(line, self.offset.x)) as nat;
        let shown = if column >= hidden {
            (column - hidden) as nat
        } else {
            0
        };
        let x = if self.cursor.x < line.len() && shown > self.dimensions.x - 1 {
            (self.dimensions.x - 1) as nat
        } else {
            shown
        };
        let y = if self.cursor.y >= self.offset.y {
            (self.cursor.y - self.offset.y) as nat
        } else {
            0
        };
        if y < self.dimensions.y {
            Some((x, y))
        } else {
            None
        }
    }
}

impl Editor {
    /// The part of row `row` to draw as selected: the first index and the
    /// index at which the selection ends on that row.
    pub fn highlight(&self, row: usize) -> (range: Option<[usize; 2]>)
        requires
            row < self@.content.len(),
        ensures
            match range {
                Some(r) => self@.highlight_on(row as nat) == Some((r[0] as nat, r[1] as nat)),
                None => self@.highlight_on(row as nat) is None,
            },
    {
        match self.selection {
            Some(ends) => {
                let p = ends[0];
                let q = ends[1];
                let (a, b) = if q < p {
                    (q, p)
                } else {
                    (p, q)
                };
                assert(a@ == earlier(p@, q@) && b@ == later(p@, q@));
                let end = self.content[row].len();
                if a.y == row && b.y == row {
                    Some([a.x, b.x])
                } else if a.y == row {
                    Some([a.x, end])
                } else if b.y == row {
                    Some([0, b.x])
                } else if a.y < row && row < b.y {
                    Some([0, end])
                } else {
                    None
                }
            },
            None => None,
        }
    }

    /// The text of the status line, given whether the status message is
    /// fresh.
    pub fn status_text_when(&self, fresh: bool) -> (text: String)
        ensures
            text@ == self@.status_text(fresh),
    {
        if let Some(status) = &self.status {
            if fresh {
                return status.text.clone();
            }
        }
        let mut text = " ".to_owned();
        match &self.filename {
            Some(name) => text.append(name.as_str()),
            None => text.append("[No Name]"),
        }
        text.append(" \u{e2}\u{20ac}\u{a2} ");
        text.append(decimal_string(self.cursor.y as u128 + 1).as_str());
        text.append(":");
        text.append(decimal_string(self.cursor.x as u128 + 1).as_str());
        text.append(" ");
        text
    }

    /// The text of the status line by the clock: the status message while
    /// it is fresh, else where the cursor stands.
    pub fn status_text(&self) -> (text: String)
        ensures
            text@ == self@.status_text(true) || text@ == self@.status_text(false),
    {
        let fresh = match &self.status {
            Some(status) => status.is_fresh(),
            None => false,
        };
        self.status_text_when(fresh)
    }

    /// Where on the screen to put the cursor: display column and screen
    /// row; `None` where the cursor lies below the screen.
    pub fn cursor_on_screen(&self) -> (place: Option<(usize, usize)>)
        requires
            self@.cursor.y < self@.content.len(),
            self@.dimensions.x >= 1 || self@.cursor.x >= self@.current_line().len(),
        ensures
            match place {
                Some((x, y)) => self@.screen_cursor() == Some((x as nat, y as nat)),
                None => self@.screen_cursor() is None,
            },
    {
        let line = self.get_current_line();
        let column = line.width_to(self.cursor.x);
        let hidden = line.width_to(self.offset.x);
        let mut display_x = if column >= hidden {
            column - hidden
        } else {
            0
        };
        if line.len() > self.cursor.x && display_x > self.dimensions.x - 1 {
            display_x = self.dimensions.x - 1;
        }
        let screen_y = if self.cursor.y >= self.offset.y {
            self.cursor.y - self.offset.y
        } else {
            0
        };
        if screen_y < self.dimensions.y {
            Some((display_x, screen_y))
        } else {
            None
        }
    }
}

} // verus!
