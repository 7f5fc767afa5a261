use crate::action::action::{clone_lines, shape_of, Action, ActionType, Edit};
use crate::action::undo_stack::{
    lemma_added_fits, lemma_added_has_no_redo, lemma_fits_by_shape, lemma_redone_fits,
    lemma_undone_fits, NodeView,
};
use crate::editor::engine::{edit_wf, Editor, State};
use crate::editor::movement::previous_pos;
use crate::text::{
    can_insert, can_remove, clamp_column, end_of_insert, extract_text, insert_text,
    lemma_extract_keeps_wf, lemma_insert_in_text, lemma_insert_keeps_wf,
    lemma_insert_undoes_remove,
    lemma_remove_in_text, lemma_remove_keeps_wf, lemma_remove_undoes_insert, remove_text,
    spliced_rows, text_wf, Text,
};
use crate::types::line::{char_to_string, grapheme_clusters, line_wf, segment, Line};
use crate::types::point::{Point, Pos};
use vstd::prelude::*;
use vstd::string::StringExecFns;

verus! {

/// The payload of one row that holds the one grapheme `g`.
pub open spec fn single(g: Seq<char>) -> Text {
    seq![seq![g]]
}

/// The payload that splits a row in two: two empty rows.
pub open spec fn line_break() -> Text {
    seq![Seq::<Seq<char>>::empty(), Seq::<Seq<char>>::empty()]
}

impl State {
    /// The state after the edit `e`: the document changed, the cursor where
    /// the edit leaves it, the screen following.
    pub open spec fn applied(self, e: Edit) -> State {
        State { content: e.apply(self.content), ..self }.moved_to(e.cursor(self.content))
    }

    /// The state after the edit `redo` was applied and recorded together
    /// with its inverse `undo`.
    pub open spec fn recorded(self, redo: Edit, undo: Edit) -> State {
        State { history: self.history.added(NodeView { redo, undo }), ..self.applied(redo) }
    }

    /// The grapheme before the cursor.
    pub open spec fn previous_grapheme(self) -> Seq<char> {
        self.current_line()[self.cursor.x - 1]
    }

    /// The character `c` joins the grapheme before the cursor: there is
    /// one, and with `c` behind it it is still a single grapheme cluster.
    pub open spec fn joins_previous(self, c: char) -> bool {
        self.cursor.x > 0 && grapheme_clusters(self.previous_grapheme().push(c)).len() == 1
    }

    /// The state after the character `c` was typed. Where `c` joins the
    /// grapheme before the cursor it is added to that grapheme, and nothing
    /// else changes: no edit is recorded. Else `c` is inserted at the
    /// cursor as a grapheme of its own.
    pub open spec fn after_insert_char(self, c: char) -> State {
        self.typed(c, self.joins_previous(c))
    }

    /// The state after the character `c` was typed, given whether it joins
    /// the grapheme before the cursor.
    pub open spec fn typed(self, c: char, joins: bool) -> State {
        if joins {
            State {
                content: self.content.update(
                    self.cursor.y as int,
                    self.current_line().update(
                        self.cursor.x - 1,
                        self.previous_grapheme().push(c),
                    ),
                ),
                ..self
            }
        } else {
            self.recorded(
                Edit::Insert { start: self.cursor, payload: single(seq![c]) },
                Edit::Remove {
                    start: self.cursor,
                    end: Pos { x: self.cursor.x + 1, y: self.cursor.y },
                },
            )
        }
    }

    /// The state after the row was split at the cursor.
    pub open spec fn after_insert_newline(self) -> State {
        self.recorded(
            Edit::Insert { start: self.cursor, payload: line_break() },
            Edit::Remove { start: self.cursor, end: Pos { x: 0, y: self.cursor.y + 1 } },
        )
    }

    /// The state after what lies between the position before the cursor
    /// and the cursor was deleted: the grapheme before the cursor, or, at
    /// the start of a row, the break between that row and the row above,
    /// which joins the two. What was deleted is recorded as the payload of
    /// the inverse: one grapheme, or two empty rows. At the start of the
    /// document the state stays as it is.
    pub open spec fn after_remove_char(self) -> State {
        match previous_pos(self.content, self.cursor) {
            Some(start) => self.recorded(
                Edit::Remove { start, end: self.cursor },
                Edit::Insert { start, payload: extract_text(self.content, start, self.cursor) },
            ),
            None => self,
        }
    }

    /// The state after the clipboard was inserted at the cursor; the state
    /// itself where nothing was copied.
    pub open spec fn after_paste(self) -> State {
        match self.clipboard {
            Some(rows) => self.recorded(
                Edit::Insert { start: self.cursor, payload: rows },
                Edit::Remove {
                    start: self.cursor,
                    end: end_of_insert(self.content, self.cursor, rows),
                },
            ),
            None => self,
        }
    }

    /// The state after the last applied edit was taken back; the state
    /// itself where none is applied.
    pub open spec fn after_undo(self) -> State {
        match self.history.undo_edit() {
            Some(e) => State { history: self.history.undone(), ..self.applied(e) },
            None => self,
        }
    }

    /// The state after the first undone edit was made again; the state
    /// itself where none is undone.
    pub open spec fn after_redo(self) -> State {
        match self.history.redo_edit() {
            Some(e) => State { history: self.history.redone(), ..self.applied(e) },
            None => self,
        }
    }

    /// The grapheme at `point`, if there is one.
    pub open spec fn grapheme_at(self, point: Pos) -> Option<Seq<char>> {
        if point.y < self.content.len() && point.x < self.content[point.y as int].len() {
            Some(self.content[point.y as int][point.x as int])
        } else {
            None
        }
    }
}

/// An edit that applies to a well-formed buffer, and inserts no empty
/// grapheme, leaves a well-formed buffer.
pub proof fn lemma_applied_keeps_buffer(s: State, e: Edit)
    requires
        s.buffer_wf(),
        e.applies_to(s.content),
        edit_wf(e),
    ensures
        s.applied(e).buffer_wf(),
{
    match e {
        Edit::Insert { start, payload } => {
            lemma_insert_keeps_wf(s.content, start, payload);
        },
        Edit::Remove { start, end } => {
            lemma_remove_keeps_wf(s.content, start, end);
        },
        Edit::Malformed => {},
    }
}

/// Recording an edit together with its exact inverse keeps the invariant
/// of the editor.
pub proof fn lemma_recorded_keeps_wf(s: State, redo: Edit, undo: Edit)
    requires
        s.wf(),
        redo.applies_to(s.content),
        undo.applies_to(redo.apply(s.content)),
        undo.apply(redo.apply(s.content)) == s.content,
        edit_wf(redo),
        edit_wf(undo),
    ensures
        s.recorded(redo, undo).wf(),
{
    let node = NodeView { redo, undo };
    lemma_applied_keeps_buffer(s, redo);
    lemma_added_fits(s.history, node, s.content);
    lemma_added_has_no_redo(s.history, node);
    let nodes = s.history.added(node).nodes;
    assert forall|i: int| 0 <= i < nodes.len() implies edit_wf((#[trigger] nodes[i]).redo)
        && edit_wf(nodes[i].undo) by {
        if i < s.history.index {
            assert(nodes[i] == s.history.nodes[i]);
        }
    }
}

/// An undo keeps the invariant of the editor.
pub proof fn lemma_undo_keeps_wf(s: State)
    requires
        s.wf(),
    ensures
        s.after_undo().wf(),
{
    if s.history.index > 0 {
        let e = s.history.undo_edit()->0;
        assert(e == s.history.nodes[s.history.index - 1].undo);
        lemma_undone_fits(s.history, s.content);
        lemma_applied_keeps_buffer(s, e);
    }
}

/// A redo keeps the invariant of the editor.
pub proof fn lemma_redo_keeps_wf(s: State)
    requires
        s.wf(),
    ensures
        s.after_redo().wf(),
{
    if s.history.index < s.history.nodes.len() {
        let e = s.history.redo_edit()->0;
        assert(e == s.history.nodes[s.history.index as int].redo);
        lemma_redone_fits(s.history, s.content);
        lemma_applied_keeps_buffer(s, e);
    }
}

/// Typing a character keeps the invariant of the editor, whether or not
/// the character joins the grapheme before the cursor.
pub proof fn lemma_typed_keeps_wf(s: State, c: char, joins: bool)
    requires
        s.wf(),
        joins ==> s.cursor.x > 0,
    ensures
        s.typed(c, joins).wf(),
{
    let t = s.content;
    let y = s.cursor.y as int;
    if joins {
        let r = s.typed(c, joins);
        assert(line_wf(t[y]));
        assert forall|i: int| 0 <= i < r.content.len() implies line_wf(#[trigger] r.content[i]) by {
            if i != y {
                assert(r.content[i] == t[i]);
            }
        }
        assert(shape_of(t) =~= shape_of(r.content));
        lemma_fits_by_shape(s.history, t, r.content);
    } else {
        let payload = single(seq![c]);
        assert(text_wf(payload));
        lemma_remove_undoes_insert(t, s.cursor, payload);
        lemma_recorded_keeps_wf(
            s,
            Edit::Insert { start: s.cursor, payload },
            Edit::Remove { start: s.cursor, end: Pos { x: s.cursor.x + 1, y: s.cursor.y } },
        );
    }
}

/// Splitting a row keeps the invariant of the editor.
pub proof fn lemma_insert_newline_keeps_wf(s: State)
    requires
        s.wf(),
    ensures
        s.after_insert_newline().wf(),
{
    let payload = line_break();
    assert(text_wf(payload));
    lemma_remove_undoes_insert(s.content, s.cursor, payload);
    lemma_recorded_keeps_wf(
        s,
        Edit::Insert { start: s.cursor, payload },
        Edit::Remove { start: s.cursor, end: Pos { x: 0, y: s.cursor.y + 1 } },
    );
}

/// What lies before the cursor, up to the position before it, is one
/// grapheme on the row of the cursor, or the break before that row: two
/// empty rows.
pub proof fn lemma_span_before_cursor(s: State)
    requires
        s.buffer_wf(),
        previous_pos(s.content, s.cursor) is Some,
    ensures
        ({
            let start = previous_pos(s.content, s.cursor)->0;
            &&& can_remove(s.content, start, s.cursor)
            &&& s.cursor.x > 0 ==> extract_text(s.content, start, s.cursor) == single(
                s.content[start.y as int][start.x as int],
            )
            &&& s.cursor.x == 0 ==> extract_text(s.content, start, s.cursor) == line_break()
        }),
{
    let t = s.content;
    let start = previous_pos(t, s.cursor)->0;
    if s.cursor.x > 0 {
        let g = t[start.y as int][start.x as int];
        assert(t[start.y as int].subrange(start.x as int, s.cursor.x as int) =~= seq![g]);
        assert(extract_text(t, start, s.cursor) =~= single(g));
    } else {
        let above = t[start.y as int];
        let row = t[s.cursor.y as int];
        assert(above.skip(start.x as int) =~= Seq::<Seq<char>>::empty());
        assert(row.take(0) =~= Seq::<Seq<char>>::empty());
        assert(t.subrange(start.y as int + 1, s.cursor.y as int) =~= Seq::<
            Seq<Seq<char>>,
        >::empty());
        assert(extract_text(t, start, s.cursor) =~= line_break());
    }
}

/// Deleting before the cursor keeps the invariant of the editor.
pub proof fn lemma_remove_char_keeps_wf(s: State)
    requires
        s.wf(),
    ensures
        s.after_remove_char().wf(),
{
    if let Some(start) = previous_pos(s.content, s.cursor) {
        let t = s.content;
        lemma_span_before_cursor(s);
        lemma_extract_keeps_wf(t, start, s.cursor);
        lemma_insert_undoes_remove(t, start, s.cursor);
        lemma_recorded_keeps_wf(
            s,
            Edit::Remove { start, end: s.cursor },
            Edit::Insert { start, payload: extract_text(t, start, s.cursor) },
        );
    }
}

/// Pasting keeps the invariant of the editor.
pub proof fn lemma_paste_keeps_wf(s: State)
    requires
        s.wf(),
        s.clipboard_ready(),
    ensures
        s.after_paste().wf(),
{
    if let Some(rows) = s.clipboard {
        lemma_remove_undoes_insert(s.content, s.cursor, rows);
        lemma_recorded_keeps_wf(
            s,
            Edit::Insert { start: s.cursor, payload: rows },
            Edit::Remove { start: s.cursor, end: end_of_insert(s.content, s.cursor, rows) },
        );
    }
}

/// Undoing a recorded edit gives back the document and the cursor as they
/// were before it, where the recorded inverse leads back to both.
pub proof fn lemma_undo_inverts_recorded(s: State, redo: Edit, undo: Edit)
    requires
        s.history.wf(),
        undo.apply(redo.apply(s.content)) == s.content,
        undo.cursor(redo.apply(s.content)) == s.cursor,
    ensures
        s.recorded(redo, undo).after_undo().content == s.content,
        s.recorded(redo, undo).after_undo().cursor == s.cursor,
        s.recorded(redo, undo).after_undo().history.index == s.history.index,
{
    lemma_added_has_no_redo(s.history, NodeView { redo, undo });
}

/// An undo and then a redo, right after a recorded edit, lead back to the
/// document, the cursor and the history that the edit left.
pub proof fn lemma_redo_restores_recorded(s: State, redo: Edit, undo: Edit)
    requires
        s.history.wf(),
        undo.apply(redo.apply(s.content)) == s.content,
    ensures
        s.recorded(redo, undo).after_undo().after_redo().content == s.recorded(redo, undo).content,
        s.recorded(redo, undo).after_undo().after_redo().cursor == s.recorded(redo, undo).cursor,
        s.recorded(redo, undo).after_undo().after_redo().history == s.recorded(
            redo,
            undo,
        ).history,
{
    let node = NodeView { redo, undo };
    lemma_added_has_no_redo(s.history, node);
    let r = s.recorded(redo, undo);
    let u = r.after_undo();
    assert(u.history.nodes == r.history.nodes);
    assert(u.history.index == s.history.index);
    assert(u.history.redo_edit() == Some(redo));
}

/// A character that joins the grapheme before the cursor is not recorded:
/// the history stays as it was, and so do the cursor and the shape of the
/// document.
pub proof fn lemma_joined_char_is_not_recorded(s: State, c: char)
    requires
        s.wf(),
        s.joins_previous(c),
    ensures
        s.after_insert_char(c).history == s.history,
        s.after_insert_char(c).cursor == s.cursor,
        shape_of(s.after_insert_char(c).content) == shape_of(s.content),
{
    assert(shape_of(s.typed(c, true).content) =~= shape_of(s.content));
}

/// Typing a character that stands alone, then undoing, gives back the
/// document and the cursor.
pub proof fn lemma_undo_inverts_insert_char(s: State, c: char)
    requires
        s.wf(),
        !s.joins_previous(c),
    ensures
        s.after_insert_char(c).after_undo().content == s.content,
        s.after_insert_char(c).after_undo().cursor == s.cursor,
{
    lemma_remove_undoes_insert(s.content, s.cursor, single(seq![c]));
    lemma_undo_inverts_recorded(
        s,
        Edit::Insert { start: s.cursor, payload: single(seq![c]) },
        Edit::Remove { start: s.cursor, end: Pos { x: s.cursor.x + 1, y: s.cursor.y } },
    );
}

/// Splitting a row, then undoing, gives back the document and the cursor.
pub proof fn lemma_undo_inverts_insert_newline(s: State)
    requires
        s.wf(),
    ensures
        s.after_insert_newline().after_undo().content == s.content,
        s.after_insert_newline().after_undo().cursor == s.cursor,
{
    lemma_remove_undoes_insert(s.content, s.cursor, line_break());
    lemma_undo_inverts_recorded(
        s,
        Edit::Insert { start: s.cursor, payload: line_break() },
        Edit::Remove { start: s.cursor, end: Pos { x: 0, y: s.cursor.y + 1 } },
    );
}

/// Deleting before the cursor, then undoing, gives back the document and
/// the cursor, wherever the cursor stands but at the start of the
/// document: on a row the deleted grapheme is back, at the start of a row
/// the joined rows are split again.
pub proof fn lemma_undo_inverts_remove_char(s: State)
    requires
        s.wf(),
        s.cursor != (Pos { x: 0, y: 0 }),
    ensures
        s.after_remove_char().after_undo().content == s.content,
        s.after_remove_char().after_undo().cursor == s.cursor,
{
    let t = s.content;
    let start = previous_pos(t, s.cursor)->0;
    lemma_span_before_cursor(s);
    lemma_insert_undoes_remove(t, start, s.cursor);
    lemma_undo_inverts_recorded(
        s,
        Edit::Remove { start, end: s.cursor },
        Edit::Insert { start, payload: extract_text(t, start, s.cursor) },
    );
}

/// Deleting at the start of a later row joins that row to the row above:
/// the document has one row less, the joined row is the row above followed
/// by the row of the cursor, the cursor stands where the two meet, and the
/// removal is recorded with two empty rows as the payload of its inverse.
pub proof fn lemma_remove_char_joins_rows(s: State)
    requires
        s.wf(),
        s.cursor.x == 0,
        s.cursor.y > 0,
    ensures
        ({
            let y = s.cursor.y as int;
            let r = s.after_remove_char();
            let meet = Pos { x: s.content[y - 1].len(), y: (y - 1) as nat };
            &&& r.content == s.content.take(y - 1) + seq![s.content[y - 1] + s.content[y]]
                + s.content.skip(y + 1)
            &&& r.content.len() == s.content.len() - 1
            &&& r.cursor == meet
            &&& r.history.index == s.history.index + 1
            &&& r.history.nodes[s.history.index as int].redo == (Edit::Remove {
                start: meet,
                end: s.cursor,
            })
            &&& r.history.nodes[s.history.index as int].undo == (Edit::Insert {
                start: meet,
                payload: line_break(),
            })
        }),
{
    let t = s.content;
    let y = s.cursor.y as int;
    let meet = Pos { x: t[y - 1].len(), y: (y - 1) as nat };
    lemma_span_before_cursor(s);
    lemma_added_has_no_redo(
        s.history,
        NodeView {
            redo: Edit::Remove { start: meet, end: s.cursor },
            undo: Edit::Insert { start: meet, payload: line_break() },
        },
    );
    assert(t[y - 1].take(meet.x as int) =~= t[y - 1]);
    assert(t[y].skip(0) =~= t[y]);
    assert(remove_text(t, meet, s.cursor) =~= t.take(y - 1) + seq![t[y - 1] + t[y]] + t.skip(
        y + 1,
    ));
}

/// Pasting, then undoing, gives back the document and the cursor.
pub proof fn lemma_undo_inverts_paste(s: State)
    requires
        s.wf(),
        s.clipboard is Some,
        s.clipboard_ready(),
    ensures
        s.after_paste().after_undo().content == s.content,
        s.after_paste().after_undo().cursor == s.cursor,
{
    let rows = s.clipboard->0;
    lemma_remove_undoes_insert(s.content, s.cursor, rows);
    lemma_undo_inverts_recorded(
        s,
        Edit::Insert { start: s.cursor, payload: rows },
        Edit::Remove { start: s.cursor, end: end_of_insert(s.content, s.cursor, rows) },
    );
}

/// After a character that stands alone was typed, an undo and then a redo
/// lead back to what the typing left.
pub proof fn lemma_redo_restores_insert_char(s: State, c: char)
    requires
        s.wf(),
        !s.joins_previous(c),
    ensures
        s.after_insert_char(c).after_undo().after_redo().content == s.after_insert_char(
            c,
        ).content,
        s.after_insert_char(c).after_undo().after_redo().cursor == s.after_insert_char(c).cursor,
        s.after_insert_char(c).after_undo().after_redo().history == s.after_insert_char(
            c,
        ).history,
{
    lemma_remove_undoes_insert(s.content, s.cursor, single(seq![c]));
    lemma_redo_restores_recorded(
        s,
        Edit::Insert { start: s.cursor, payload: single(seq![c]) },
        Edit::Remove { start: s.cursor, end: Pos { x: s.cursor.x + 1, y: s.cursor.y } },
    );
}

/// After a row was split, an undo and then a redo lead back to what the
/// split left.
pub proof fn lemma_redo_restores_insert_newline(s: State)
    requires
        s.wf(),
    ensures
        s.after_insert_newline().after_undo().after_redo().content
            == s.after_insert_newline().content,
        s.after_insert_newline().after_undo().after_redo().cursor
            == s.after_insert_newline().cursor,
        s.after_insert_newline().after_undo().after_redo().history
            == s.after_insert_newline().history,
{
    lemma_remove_undoes_insert(s.content, s.cursor, line_break());
    lemma_redo_restores_recorded(
        s,
        Edit::Insert { start: s.cursor, payload: line_break() },
        Edit::Remove { start: s.cursor, end: Pos { x: 0, y: s.cursor.y + 1 } },
    );
}

/// After a deletion before the cursor, an undo and then a redo lead back
/// to what the deletion left.
pub proof fn lemma_redo_restores_remove_char(s: State)
    requires
        s.wf(),
        s.cursor != (Pos { x: 0, y: 0 }),
    ensures
        s.after_remove_char().after_undo().after_redo().content == s.after_remove_char().content,
        s.after_remove_char().after_undo().after_redo().cursor == s.after_remove_char().cursor,
        s.after_remove_char().after_undo().after_redo().history == s.after_remove_char().history,
{
    let t = s.content;
    let start = previous_pos(t, s.cursor)->0;
    lemma_span_before_cursor(s);
    lemma_insert_undoes_remove(t, start, s.cursor);
    lemma_redo_restores_recorded(
        s,
        Edit::Remove { start, end: s.cursor },
        Edit::Insert { start, payload: extract_text(t, start, s.cursor) },
    );
}

/// After a paste, an undo and then a redo lead back to what the paste
/// left.
pub proof fn lemma_redo_restores_paste(s: State)
    requires
        s.wf(),
        s.clipboard is Some,
        s.clipboard_ready(),
    ensures
        s.after_paste().after_undo().after_redo().content == s.after_paste().content,
        s.after_paste().after_undo().after_redo().cursor == s.after_paste().cursor,
        s.after_paste().after_undo().after_redo().history == s.after_paste().history,
{
    let rows = s.clipboard->0;
    lemma_remove_undoes_insert(s.content, s.cursor, rows);
    lemma_redo_restores_recorded(
        s,
        Edit::Insert { start: s.cursor, payload: rows },
        Edit::Remove { start: s.cursor, end: end_of_insert(s.content, s.cursor, rows) },
    );
}

/// Splices the rows of `payload` into `content` at `start` and returns the
/// position behind them.
fn insert_rows(content: &mut Vec<Line>, start: Point, payload: &Vec<Line>) -> (end: Point)
    requires
        can_insert(old(content).deep_view(), start@, payload.deep_view()),
    ensures
        final(content).deep_view() == insert_text(
            old(content).deep_view(),
            start@,
            payload.deep_view(),
        ),
        end@ == end_of_insert(old(content).deep_view(), start@, payload.deep_view()),
{
    let ghost t = content.deep_view();
    let ghost p = payload.deep_view();
    let ghost row = t[start.y as int];
    let y = start.y;
    let n = payload.len();
    let row_len = content[y].graphemes.len();
    let k = if start.x >= row_len {
        row_len
    } else {
        start.x
    };
    assert(k == clamp_column(row, start@.x));
    let mut right = content[y].graphemes.split_off(k);
    let mut first = payload[0].graphemes.clone();
    assert(first.deep_view() =~= p[0]);
    assert(right.deep_view() =~= row.skip(k as int));
    content[y].graphemes.append(&mut first);
    assert(content[y as int]@ =~= row.take(k as int) + p[0]);
    if n == 1 {
        let x_new = content[y].graphemes.len();
        content[y].graphemes.append(&mut right);
        assert(content[y as int]@ =~= row.take(k as int) + p[0] + row.skip(k as int));
        assert(content.deep_view() =~= insert_text(t, start@, p));
        Point::new(x_new, y)
    } else {
        assert(y < content.len());
        let mut tail = content.split_off(y + 1);
        assert(tail.deep_view() =~= t.skip(y + 1));
        assert(content.deep_view() =~= t.take(y as int) + seq![row.take(k as int) + p[0]]);
        let mut i: usize = 1;
        while i < n - 1
            invariant
                1 <= i <= n - 1,
                n == payload.len(),
                p == payload.deep_view(),
                content.deep_view() =~= t.take(y as int) + seq![row.take(k as int) + p[0]]
                    + p.subrange(1, i as int),
            decreases n - i,
        {
            let ghost before = content.deep_view();
            let line = payload[i].clone();
            assert(line@ == p[i as int]);
            content.push(line);
            assert(content.deep_view() =~= before.push(p[i as int]));
            assert(p.subrange(1, i + 1) =~= p.subrange(1, i as int).push(p[i as int]));
            i += 1;
        }
        let ghost head = content.deep_view();
        let mut last = payload[n - 1].clone();
        let x_new = last.graphemes.len();
        last.graphemes.append(&mut right);
        assert(last@ =~= p[n - 1] + row.skip(k as int));
        content.push(last);
        assert(content.deep_view() =~= head.push(p[n - 1] + row.skip(k as int)));
        let y_new = content.len() - 1;
        content.append(&mut tail);
        assert(content.deep_view() =~= head.push(p[n - 1] + row.skip(k as int)) + t.skip(y + 1));
        assert(spliced_rows(row, start@.x, p) =~= seq![row.take(k as int) + p[0]] + p.subrange(
            1,
            n - 1,
        ) + seq![p[n - 1] + row.skip(k as int)]);
        assert(content.deep_view() =~= insert_text(t, start@, p));
        Point::new(x_new, y_new)
    }
}

/// Removes the span from `start` to `end` (exclusive) from `content`.
fn remove_span(content: &mut Vec<Line>, start: Point, end: Point)
    requires
        can_remove(old(content).deep_view(), start@, end@),
    ensures
        final(content).deep_view() == remove_text(old(content).deep_view(), start@, end@),
{
    let ghost t = content.deep_view();
    let mut right = content[end.y].graphemes.split_off(end.x);
    assert(right.deep_view() =~= t[end.y as int].skip(end.x as int));
    content[start.y].graphemes.truncate(start.x);
    assert(content[start.y as int]@ =~= t[start.y as int].take(start.x as int));
    content[start.y].graphemes.append(&mut right);
    assert(content[start.y as int]@ =~= t[start.y as int].take(start.x as int) + t[end.y as int].skip(
        end.x as int,
    ));
    if end.y > start.y {
        assert(end.y < content.len());
        let mut tail = content.split_off(end.y + 1);
        assert(tail.deep_view() =~= t.skip(end.y + 1));
        content.truncate(start.y + 1);
        content.append(&mut tail);
    }
    assert(content.deep_view() =~= remove_text(t, start@, end@));
}

impl Editor {
    /// The grapheme before the cursor with `c` behind it.
    fn previous_with(&self, c: char) -> (combined: String)
        requires
            self@.buffer_wf(),
            self@.cursor.x > 0,
        ensures
            combined@ == self@.previous_grapheme().push(c),
    {
        let mut combined = self.content[self.cursor.y].graphemes[self.cursor.x - 1].clone();
        combined.append(char_to_string(c).as_str());
        assert(combined@ =~= self@.previous_grapheme().push(c));
        combined
    }

    /// Types the character `c` at the cursor. Where `c` joins the grapheme
    /// before the cursor into one grapheme cluster (a combining mark, a
    /// modifier), that grapheme is replaced and no edit is recorded.
    pub fn insert_char(&mut self, c: char)
        requires
            old(self).wf(),
        ensures
            final(self)@ == old(self)@.after_insert_char(c),
            final(self).wf(),
    {
        let joins = self.cursor.x > 0 && segment(self.previous_with(c).as_str()).len() == 1;
        self.insert_char_as(c, joins);
    }

    /// Types the character `c` at the cursor, given whether it joins the
    /// grapheme before the cursor. A character that joins is added to that
    /// grapheme, and no edit is recorded; one that does not is inserted as
    /// a grapheme of its own, and the insertion is recorded.
    pub fn insert_char_as(&mut self, c: char, joins: bool)
        requires
            old(self).wf(),
            joins ==> old(self)@.cursor.x > 0,
        ensures
            final(self)@ == old(self)@.typed(c, joins),
            final(self).wf(),
    {
        proof {
            lemma_typed_keeps_wf(self@, c, joins);
        }
        let start = self.cursor;
        if joins {
            let combined = self.previous_with(c);
            self.content[start.y].graphemes[start.x - 1] = combined;
            assert(self.content[start.y as int]@ =~= old(self)@.current_line().update(
                start.x - 1,
                combined@,
            ));
            assert(self@.content =~= old(self)@.typed(c, joins).content);
            return ;
        }
        let grapheme = char_to_string(c);
        let redo = Action {
            start,
            end: None,
            payload: Some(vec![Line { graphemes: vec![grapheme] }]),
            kind: ActionType::Insert,
        };
        assert(redo.payload->0.deep_view() =~= single(seq![c])) by {
            assert(redo.payload->0[0]@ =~= seq![seq![c]]);
        }
        self.apply_action(&redo);
        let undo = Action { start, end: Some(self.cursor), payload: None, kind: ActionType::Remove };
        self.undo_stack.add(redo, undo);
    }

    /// Splits the row at the cursor in two.
    pub fn insert_newline(&mut self)
        requires
            old(self).wf(),
        ensures
            final(self)@ == old(self)@.after_insert_newline(),
            final(self).wf(),
    {
        proof {
            lemma_insert_newline_keeps_wf(self@);
        }
        let start = self.cursor;
        let redo = Action {
            start,
            end: None,
            payload: Some(vec![Line::new(), Line::new()]),
            kind: ActionType::Insert,
        };
        assert(redo.payload->0.deep_view() =~= line_break());
        self.apply_action(&redo);
        let undo = Action { start, end: Some(self.cursor), payload: None, kind: ActionType::Remove };
        self.undo_stack.add(redo, undo);
    }

    /// The grapheme at `point`; `None` where `point` is no grapheme of the
    /// document.
    pub fn get_char_at(&self, point: Point) -> (grapheme: Option<String>)
        ensures
            match grapheme {
                Some(g) => self@.grapheme_at(point@) == Some(g@),
                None => self@.grapheme_at(point@) is None,
            },
    {
        if point.y < self.content.len() && point.x < self.content[point.y].graphemes.len() {
            Some(self.content[point.y].graphemes[point.x].clone())
        } else {
            None
        }
    }

    /// Deletes backward from the cursor: the grapheme before it, or, at
    /// the start of a row, the break before the row, so that the row joins
    /// the row above. Does nothing at the start of the document.
    pub fn remove_char(&mut self)
        requires
            old(self).wf(),
        ensures
            final(self)@ == old(self)@.after_remove_char(),
            final(self).wf(),
    {
        proof {
            lemma_remove_char_keeps_wf(self@);
        }
        if let Some(start) = self.get_previous_point() {
            proof {
                lemma_span_before_cursor(self@);
            }
            let payload = match self.get_char_at(start) {
                Some(grapheme) => {
                    let rows = vec![Line { graphemes: vec![grapheme] }];
                    assert(rows.deep_view() =~= single(grapheme@)) by {
                        assert(rows[0]@ =~= seq![grapheme@]);
                    }
                    rows
                },
                None => {
                    let rows = vec![Line::new(), Line::new()];
                    assert(rows.deep_view() =~= line_break());
                    rows
                },
            };
            let redo = Action {
                start,
                end: Some(self.cursor),
                payload: None,
                kind: ActionType::Remove,
            };
            let undo = Action { start, end: None, payload: Some(payload), kind: ActionType::Insert };
            self.apply_action(&redo);
            self.undo_stack.add(redo, undo);
        }
    }

    /// Inserts the clipboard at the cursor; does nothing where nothing was
    /// copied. A clipboard without a row cannot be pasted.
    pub fn paste(&mut self)
        requires
            old(self).wf(),
            old(self)@.clipboard_ready(),
        ensures
            final(self)@ == old(self)@.after_paste(),
            final(self).wf(),
    {
        proof {
            lemma_paste_keeps_wf(self@);
        }
        if let Some(clipboard) = &self.clipboard {
            let start = self.cursor;
            let redo = Action {
                start,
                end: None,
                payload: Some(clone_lines(clipboard)),
                kind: ActionType::Insert,
            };
            self.apply_action(&redo);
            let undo = Action {
                start,
                end: Some(self.cursor),
                payload: None,
                kind: ActionType::Remove,
            };
            self.undo_stack.add(redo, undo);
        }
    }

    /// Takes the last applied edit back; does nothing where none is
    /// applied.
    pub fn undo(&mut self)
        requires
            old(self).wf(),
        ensures
            final(self)@ == old(self)@.after_undo(),
            final(self).wf(),
    {
        proof {
            lemma_undo_keeps_wf(self@);
            if self@.history.index > 0 {
                lemma_undone_fits(self@.history, self@.content);
            }
        }
        if let Some(action) = self.undo_stack.undo() {
            self.apply_action(&action);
        }
    }

    /// Makes the first undone edit again; does nothing where none is
    /// undone.
    pub fn redo(&mut self)
        requires
            old(self).wf(),
        ensures
            final(self)@ == old(self)@.after_redo(),
            final(self).wf(),
    {
        proof {
            lemma_redo_keeps_wf(self@);
            if self@.history.index < self@.history.nodes.len() {
                lemma_redone_fits(self@.history, self@.content);
            }
        }
        if let Some(action) = self.undo_stack.redo() {
            self.apply_action(&action);
        }
    }

    /// Applies one action to the document and leaves the cursor where the
    /// action ends: behind what was inserted, or where the removed span
    /// began.
    pub fn apply_action(&mut self, action: &Action)
        requires
            action@.applies_to(old(self)@.content),
        ensures
            final(self)@ == old(self)@.applied(action@),
    {
        let start = action.start;
        match action.kind {
            ActionType::Insert => {
                if let Some(payload) = &action.payload {
                    let end = insert_rows(&mut self.content, start, payload);
                    proof {
                        lemma_insert_in_text(old(self)@.content, start@, payload.deep_view());
                    }
                    self.move_cursor(end);
                }
            },
            ActionType::Remove => {
                if let Some(end) = action.end {
                    remove_span(&mut self.content, start, end);
                    proof {
                        lemma_remove_in_text(old(self)@.content, start@, end@);
                    }
                    self.move_cursor(start);
                }
            },
        }
    }
}

} // verus!
