use crate::editor::engine::{Editor, State};
use crate::text::{
    can_remove, end_of_insert, extract_text, in_text, insert_text, lemma_extract_keeps_wf,
    lemma_extract_of_insert, text_wf, Text,
};
use crate::types::line::{line_wf, Line};
use crate::types::point::{Point, Pos};
use vstd::prelude::*;

verus! {

/// The earlier of two positions in row-major order.
pub open spec fn earlier(p: Pos, q: Pos) -> Pos {
    if q.precedes(p) {
        q
    } else {
        p
    }
}

/// The later of two positions in row-major order.
pub open spec fn later(p: Pos, q: Pos) -> Pos {
    if q.precedes(p) {
        p
    } else {
        q
    }
}

/// `p` lies on its row, if the document has that row.
pub open spec fn on_row(t: Text, p: Pos) -> bool {
    p.y < t.len() ==> p.x <= t[p.y as int].len()
}

/// The span from `a` to `b` (exclusive) as far as its rows exist in `t`:
/// the whole span where the row of `b` exists, the rows from `a` to the end
/// of the document where only the row of `a` exists, and nothing where
/// neither does.
pub open spec fn span_in_rows(t: Text, a: Pos, b: Pos) -> Text {
    if a.y >= t.len() {
        Seq::empty()
    } else if b.y < t.len() {
        extract_text(t, a, b)
    } else {
        seq![t[a.y as int].skip(a.x as int)] + t.subrange(a.y as int + 1, t.len() as int)
    }
}

impl State {
    /// The state after the selection was extended from `from` to `to`: a
    /// selection that exists keeps its anchor, a new one is anchored at
    /// `from`; either way `to` is its active end.
    pub open spec fn selecting(self, from: Pos, to: Pos) -> State {
        State {
            selection: Some(
                match self.selection {
                    Some((anchor, _)) => (anchor, to),
                    None => (from, to),
                },
            ),
            ..self
        }
    }

    /// Both ends of the selection, where there is one, lie in the
    /// document.
    pub open spec fn selection_in_text(self) -> bool {
        self.selection matches Some((p, q)) ==> in_text(self.content, p) && in_text(
            self.content,
            q,
        )
    }

    /// Both ends of the selection, where there is one, lie on their rows,
    /// as far as the rows exist. A selection that was made before the
    /// document lost rows may name rows that are gone.
    pub open spec fn selection_readable(self) -> bool {
        self.selection matches Some((p, q)) ==> on_row(self.content, p) && on_row(
            self.content,
            q,
        )
    }

    /// The selected text: the span between the two ends of the selection,
    /// whichever comes first, as far as its rows exist.
    pub open spec fn selected_text(self) -> Option<Text> {
        match self.selection {
            Some((p, q)) => Some(span_in_rows(self.content, earlier(p, q), later(p, q))),
            None => None,
        }
    }

    /// The state after the selected text was copied to the clipboard; the
    /// state itself where nothing is selected.
    pub open spec fn after_copy(self) -> State {
        match self.selected_text() {
            Some(rows) => State { clipboard: Some(rows), ..self },
            None => self,
        }
    }
}

/// A selection in the document is readable, and its text is the span
/// between its ends.
pub proof fn lemma_selection_in_text(s: State)
    requires
        s.selection_in_text(),
    ensures
        s.selection_readable(),
        s.selection matches Some((p, q)) ==> {
            &&& can_remove(s.content, earlier(p, q), later(p, q))
            &&& s.selected_text() == Some(extract_text(s.content, earlier(p, q), later(p, q)))
        },
{
}

/// What is read of a readable span holds no empty grapheme where the
/// document holds none, and has a row where the span starts on a row of the
/// document.
pub proof fn lemma_span_in_rows_keeps_wf(t: Text, a: Pos, b: Pos)
    requires
        text_wf(t),
        a.at_or_before(b),
        on_row(t, a),
        on_row(t, b),
    ensures
        text_wf(span_in_rows(t, a, b)),
        a.y < t.len() ==> span_in_rows(t, a, b).len() >= 1,
{
    let span = span_in_rows(t, a, b);
    if a.y < t.len() {
        if b.y < t.len() {
            lemma_extract_keeps_wf(t, a, b);
        } else {
            assert(line_wf(t[a.y as int]));
            assert forall|i: int| 0 <= i < span.len() implies line_wf(#[trigger] span[i]) by {
                if i > 0 {
                    assert(span[i] == t[a.y + i]);
                }
            }
        }
    }
}

/// Copying keeps the invariant of the editor.
pub proof fn lemma_copy_keeps_wf(s: State)
    requires
        s.wf(),
        s.selection_readable(),
    ensures
        s.after_copy().wf(),
{
    if let Some((p, q)) = s.selection {
        lemma_span_in_rows_keeps_wf(s.content, earlier(p, q), later(p, q));
    }
}

/// Copying a selection that lies in the document and pasting it at the
/// position `p` gives the document that inserting the selected text at `p`
/// gives; and what then lies between `p` and the cursor is the selected
/// text again.
pub proof fn lemma_copy_then_paste(s: State, p: Pos)
    requires
        s.selection is Some,
        s.selection_in_text(),
        in_text(s.content, p),
    ensures
        ({
            let (a, b) = s.selection->0;
            let text = extract_text(s.content, earlier(a, b), later(a, b));
            let pasted = s.after_copy().moved_to(p).after_paste();
            &&& s.selected_text() == Some(text)
            &&& s.after_copy().clipboard_ready()
            &&& pasted.content == insert_text(s.content, p, text)
            &&& pasted.cursor == end_of_insert(s.content, p, text)
            &&& extract_text(pasted.content, p, pasted.cursor) == text
        }),
{
    let (a, b) = s.selection->0;
    let text = extract_text(s.content, earlier(a, b), later(a, b));
    lemma_selection_in_text(s);
    assert(text.len() >= 1);
    lemma_extract_of_insert(s.content, p, text);
}

/// A copy of the graphemes of `row` from `from` to `to` (exclusive).
fn copy_range(row: &Vec<String>, from: usize, to: usize) -> (part: Vec<String>)
    requires
        from <= to <= row.len(),
    ensures
        part.deep_view() == row.deep_view().subrange(from as int, to as int),
{
    let mut part: Vec<String> = Vec::new();
    let mut i: usize = from;
    while i < to
        invariant
            from <= i <= to <= row.len(),
            part.len() == i - from,
            forall|j: int| 0 <= j < part.len() ==> (#[trigger] part[j])@ == row[from + j]@,
        decreases to - i,
    {
        part.push(row[i].clone());
        i += 1;
    }
    assert(part.deep_view() =~= row.deep_view().subrange(from as int, to as int));
    part
}

impl Editor {
    /// Extends the selection to `point_new`. A selection that exists keeps
    /// its anchor; a new one is anchored at `point_old`.
    pub fn handle_selection(&mut self, point_old: Point, point_new: Point)
        ensures
            final(self)@ == old(self)@.selecting(point_old@, point_new@),
    {
        let selection = match &self.selection {
            None => [point_old, point_new],
            Some(ends) => [ends[0], point_new],
        };
        self.selection = Some(selection);
    }

    /// Copies the selected text to the clipboard, one row for each row of
    /// the document that the selection touches; does nothing where nothing
    /// is selected. The ends of the selection must lie on their rows, as far
    /// as the rows exist.
    pub fn copy(&mut self)
        requires
            old(self)@.selection_readable(),
        ensures
            final(self)@ == old(self)@.after_copy(),
            old(self).wf() ==> final(self).wf(),
    {
        proof {
            if self.wf() {
                lemma_copy_keeps_wf(self@);
            }
        }
        if let Some(selection) = self.selection {
            let p = selection[0];
            let q = selection[1];
            let (a, b) = if q < p {
                (q, p)
            } else {
                (p, q)
            };
            assert(a@ == earlier(p@, q@) && b@ == later(p@, q@));
            let ghost t = self@.content;
            let rows = self.content.len();
            let mut lines: Vec<Line> = Vec::new();
            if a.y >= rows {
                assert(lines.deep_view() =~= span_in_rows(t, a@, b@));
            } else if a.y == b.y {
                lines.push(Line { graphemes: copy_range(&self.content[a.y].graphemes, a.x, b.x) });
                assert(lines.deep_view() =~= span_in_rows(t, a@, b@));
            } else {
                let first = &self.content[a.y].graphemes;
                lines.push(Line { graphemes: copy_range(first, a.x, first.len()) });
                assert(lines.deep_view() =~= seq![t[a.y as int].skip(a.x as int)]);
                let stop = if b.y < rows {
                    b.y
                } else {
                    rows
                };
                let mut i: usize = a.y + 1;
                while i < stop
                    invariant
                        a.y < i <= stop <= self.content.len(),
                        t == self.content.deep_view(),
                        lines.deep_view() =~= seq![t[a.y as int].skip(a.x as int)] + t.subrange(
                            a.y + 1,
                            i as int,
                        ),
                    decreases stop - i,
                {
                    let ghost before = lines.deep_view();
                    let row = self.content[i].clone();
                    lines.push(row);
                    assert(lines.deep_view() =~= before.push(t[i as int]));
                    assert(t.subrange(a.y + 1, i + 1) =~= t.subrange(a.y + 1, i as int).push(
                        t[i as int],
                    ));
                    i += 1;
                }
                if b.y < rows {
                    let ghost before = lines.deep_view();
                    lines.push(
                        Line { graphemes: copy_range(&self.content[b.y].graphemes, 0, b.x) },
                    );
                    assert(lines.deep_view() =~= before.push(t[b.y as int].take(b.x as int)));
                }
                assert(lines.deep_view() =~= span_in_rows(t, a@, b@));
            }
            self.clipboard = Some(lines);
        }
    }
}

} // verus!
