use crate::action::action::Edit;
use crate::action::undo_stack::{History, NodeView, UndoStack};
use crate::text::{in_text, text_wf, Row, Text};
use crate::types::line::Line;
use crate::types::point::{Point, Pos};
use crate::types::status::Status;
use vstd::prelude::*;

verus! {

/// The four directions in which the cursor moves.
#[derive(Debug, Clone, Copy, PartialEq, Eq, Structural)]
pub enum Direction {
    Right,
    Down,
    Left,
    Up,
}

/// The editor: the document, the cursor in it, the part of it that the
/// screen shows, the selection, the clipboard and the history of edits.
pub struct Editor {
    /// The rows of the document; never empty.
    pub content: Vec<Line>,
    /// Where the cursor stands.
    pub cursor: Point,
    /// The row (`y`) and the display column (`x`) at the top left of the
    /// screen.
    pub offset: Point,
    /// The size of the text area of the screen: `x` columns, `y` rows. The
    /// program around the editor keeps it up to date.
    pub dimensions: Point,
    /// The display column that vertical movement tries to keep.
    pub preferred_width: usize,
    /// The anchor and the active end of the selection.
    pub selection: Option<[Point; 2]>,
    /// The rows that were copied last.
    pub clipboard: Option<Vec<Line>>,
    pub undo_stack: UndoStack,
    pub filename: Option<String>,
    pub status: Option<Status>,
}

/// What an [`Editor`] stands for.
pub struct State {
    pub content: Text,
    pub cursor: Pos,
    pub offset: Pos,
    pub dimensions: Pos,
    pub preferred_width: nat,
    pub selection: Option<(Pos, Pos)>,
    pub clipboard: Option<Text>,
    pub history: History,
    pub filename: Option<Seq<char>>,
    pub status: Option<Status>,
}

/// The rows that an insertion carries hold no empty grapheme.
pub open spec fn edit_wf(e: Edit) -> bool {
    e matches Edit::Insert { payload, .. } ==> text_wf(payload)
}

/// No action of the history carries an empty grapheme.
pub open spec fn nodes_wf(nodes: Seq<NodeView>) -> bool {
    forall|i: int|
        0 <= i < nodes.len() ==> edit_wf((#[trigger] nodes[i]).redo) && edit_wf(nodes[i].undo)
}

impl State {
    /// The document has a row, the cursor stands in it, and no grapheme is
    /// empty.
    pub open spec fn buffer_wf(self) -> bool {
        &&& self.content.len() >= 1
        &&& in_text(self.content, self.cursor)
        &&& text_wf(self.content)
    }

    /// The invariant of the editor: the buffer is well formed, a clipboard
    /// holds no empty grapheme, and the history fits the document, so that
    /// every undo and every redo finds the document in the shape that its
    /// action was made for.
    pub open spec fn wf(self) -> bool {
        &&& self.buffer_wf()
        &&& (self.clipboard matches Some(rows) ==> text_wf(rows))
        &&& self.history.fits(self.content)
        &&& nodes_wf(self.history.nodes)
    }

    /// The clipboard can be pasted: it is not set, or it holds at least one
    /// row.
    pub open spec fn clipboard_ready(self) -> bool {
        self.clipboard matches Some(rows) ==> rows.len() >= 1
    }

    /// The row on which the cursor stands.
    pub open spec fn current_line(self) -> Row {
        self.content[self.cursor.y as int]
    }
}

impl View for Editor {
    type V = State;

    open spec fn view(&self) -> State {
        State {
            content: self.content.deep_view(),
            cursor: self.cursor@,
            offset: self.offset@,
            dimensions: self.dimensions@,
            preferred_width: self.preferred_width as nat,
            selection: match self.selection {
                Some(ends) => Some((ends[0]@, ends[1]@)),
                None => None,
            },
            clipboard: match self.clipboard {
                Some(rows) => Some(rows.deep_view()),
                None => None,
            },
            history: self.undo_stack@,
            filename: match self.filename {
                Some(name) => Some(name@),
                None => None,
            },
            status: self.status,
        }
    }
}

impl Editor {
    /// The invariant of the editor holds.
    pub open spec fn wf(&self) -> bool {
        self@.wf()
    }

    /// An editor on a document of one empty row, with the cursor at its
    /// start and nothing selected, copied or done.
    pub fn new() -> (editor: Self)
        ensures
            editor@.content == seq![Seq::<Seq<char>>::empty()],
            editor@.cursor == (Pos { x: 0, y: 0 }),
            editor@.offset == (Pos { x: 0, y: 0 }),
            editor@.dimensions == (Pos { x: 0, y: 0 }),
            editor@.preferred_width == 0,
            editor@.selection is None,
            editor@.clipboard is None,
            editor@.history.nodes.len() == 0,
            editor@.history.index == 0,
            editor@.filename is None,
            editor@.status is None,
            editor.wf(),
    {
        let editor = Self {
            content: vec![Line::new()],
            cursor: Point::new(0, 0),
            offset: Point::new(0, 0),
            dimensions: Point::new(0, 0),
            preferred_width: 0,
            selection: None,
            clipboard: None,
            undo_stack: UndoStack::new(),
            filename: None,
            status: None,
        };
        assert(editor@.content =~= seq![Seq::<Seq<char>>::empty()]);
        editor
    }

    /// The row on which the cursor stands.
    pub fn get_current_line(&self) -> (line: &Line)
        requires
            self@.cursor.y < self@.content.len(),
        ensures
            line@ == self@.current_line(),
    {
        &self.content[self.cursor.y]
    }
}

} // verus!
