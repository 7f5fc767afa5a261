//! The mathematical model of a document and of the two edits on it.
//!
//! A document is a sequence of rows, a row a sequence of graphemes, a
//! grapheme a sequence of characters. Insertion splices rows in at a
//! position, removal joins what lies before its start to what lies after
//! its end, and extraction reads a span out. The lemmas state how the three
//! undo one another.

use crate::types::line::line_wf;
use crate::types::point::Pos;
use vstd::prelude::*;

verus! {

/// A row of the model: its graphemes.
pub type Row = Seq<Seq<char>>;

/// A document of the model: its rows.
pub type Text = Seq<Seq<Seq<char>>>;

/// No grapheme of the document is empty.
pub open spec fn text_wf(t: Text) -> bool {
    forall|i: int| 0 <= i < t.len() ==> line_wf(#[trigger] t[i])
}

/// `p` is a place where a cursor can stand: on a row of `t`, at one of
/// its graphemes or just behind the last.
pub open spec fn in_text(t: Text, p: Pos) -> bool {
    p.y < t.len() && p.x <= t[p.y as int].len()
}

/// The column at which a row is split for an insertion at column `x`: `x`
/// itself, or the row's end where `x` lies beyond it.
pub open spec fn clamp_column(row: Row, x: nat) -> nat {
    if x >= row.len() {
        row.len()
    } else {
        x
    }
}

/// The rows that take the place of `row` when `payload` is inserted at
/// column `x`: the first payload row follows the left part, the right part
/// follows the last payload row, and the payload rows between stand alone.
pub open spec fn spliced_rows(row: Row, x: nat, payload: Text) -> Text {
    let k = clamp_column(row, x) as int;
    let last = payload.len() - 1;
    if payload.len() == 1 {
        seq![row.take(k) + payload[0] + row.skip(k)]
    } else {
        seq![row.take(k) + payload[0]] + payload.subrange(1, last) + seq![
            payload[last] + row.skip(k),
        ]
    }
}

/// `payload` can be inserted at `start`: the row exists and there is at
/// least one payload row.
pub open spec fn can_insert(t: Text, start: Pos, payload: Text) -> bool {
    start.y < t.len() && payload.len() >= 1
}

/// The document after `payload` was inserted at `start`.
pub open spec fn insert_text(t: Text, start: Pos, payload: Text) -> Text {
    t.take(start.y as int) + spliced_rows(t[start.y as int], start.x, payload) + t.skip(
        start.y as int + 1,
    )
}

/// The position just behind the inserted payload.
pub open spec fn end_of_insert(t: Text, start: Pos, payload: Text) -> Pos {
    let last = (payload.len() - 1) as nat;
    if payload.len() == 1 {
        Pos { x: clamp_column(t[start.y as int], start.x) + payload[0].len(), y: start.y }
    } else {
        Pos { x: payload[last as int].len(), y: start.y + last }
    }
}

/// The span from `start` to `end` (exclusive) lies in the document.
pub open spec fn can_remove(t: Text, start: Pos, end: Pos) -> bool {
    &&& in_text(t, start)
    &&& in_text(t, end)
    &&& start.at_or_before(end)
}

/// The document after the span from `start` to `end` (exclusive) was
/// removed: one row made of what precedes `start` on its row and of what
/// follows `end` on its row takes the place of the rows between.
pub open spec fn remove_text(t: Text, start: Pos, end: Pos) -> Text {
    t.take(start.y as int) + seq![
        t[start.y as int].take(start.x as int) + t[end.y as int].skip(end.x as int),
    ] + t.skip(end.y as int + 1)
}

/// The span from `a` to `b` (exclusive), one row for each row it touches.
pub open spec fn extract_text(t: Text, a: Pos, b: Pos) -> Text {
    if a.y == b.y {
        seq![t[a.y as int].subrange(a.x as int, b.x as int)]
    } else {
        seq![t[a.y as int].skip(a.x as int)] + t.subrange(a.y as int + 1, b.y as int) + seq![
            t[b.y as int].take(b.x as int),
        ]
    }
}

/// Removing what was just inserted gives the document back.
pub proof fn lemma_remove_undoes_insert(t: Text, start: Pos, payload: Text)
    requires
        in_text(t, start),
        payload.len() >= 1,
    ensures
        can_remove(insert_text(t, start, payload), start, end_of_insert(t, start, payload)),
        remove_text(insert_text(t, start, payload), start, end_of_insert(t, start, payload)) == t,
{
    let t1 = insert_text(t, start, payload);
    let end = end_of_insert(t, start, payload);
    let y = start.y as int;
    let k = start.x as int;
    let row = t[y];
    let last = payload.len() - 1;
    assert(t1.len() == t.len() + last);
    assert(t1[y] =~= if last == 0 {
        row.take(k) + payload[0] + row.skip(k)
    } else {
        row.take(k) + payload[0]
    });
    assert(t1[y + last] =~= if last == 0 {
        row.take(k) + payload[0] + row.skip(k)
    } else {
        payload[last] + row.skip(k)
    });
    assert(t1[y].take(k) =~= row.take(k));
    assert(t1[end.y as int].skip(end.x as int) =~= row.skip(k));
    assert(row.take(k) + row.skip(k) =~= row);
    assert(remove_text(t1, start, end) =~= t);
}

/// Inserting what a removal took away, at the place it was taken from,
/// gives the document back, and ends where the removed span ended.
pub proof fn lemma_insert_undoes_remove(t: Text, start: Pos, end: Pos)
    requires
        can_remove(t, start, end),
    ensures
        in_text(remove_text(t, start, end), start),
        extract_text(t, start, end).len() >= 1,
        insert_text(remove_text(t, start, end), start, extract_text(t, start, end)) == t,
        end_of_insert(remove_text(t, start, end), start, extract_text(t, start, end)) == end,
{
    let t1 = remove_text(t, start, end);
    let span = extract_text(t, start, end);
    let y = start.y as int;
    let k = start.x as int;
    let left = t[y].take(k);
    let right = t[end.y as int].skip(end.x as int);
    assert(t1[y] =~= left + right);
    assert(t1[y].take(k) =~= left);
    assert(t1[y].skip(k) =~= right);
    if start.y == end.y {
        assert(left + span[0] + right =~= t[y]);
    } else {
        let last = span.len() - 1;
        assert(left + span[0] =~= t[y]);
        assert(span[last] + right =~= t[end.y as int]);
        assert(span.subrange(1, last) =~= t.subrange(y + 1, end.y as int));
    }
    assert(insert_text(t1, start, span) =~= t);
}

/// Extracting the span that an insertion filled gives the payload back.
pub proof fn lemma_extract_of_insert(t: Text, start: Pos, payload: Text)
    requires
        in_text(t, start),
        payload.len() >= 1,
    ensures
        extract_text(insert_text(t, start, payload), start, end_of_insert(t, start, payload))
            == payload,
{
    let t1 = insert_text(t, start, payload);
    let end = end_of_insert(t, start, payload);
    let y = start.y as int;
    let k = start.x as int;
    let row = t[y];
    let last = payload.len() - 1;
    let span = extract_text(t1, start, end);
    if last == 0 {
        assert(t1[y] =~= row.take(k) + payload[0] + row.skip(k));
        assert(span[0] =~= payload[0]);
    } else {
        assert(t1[y] =~= row.take(k) + payload[0]);
        assert(t1[y + last] =~= payload[last] + row.skip(k));
        assert(span[0] =~= payload[0]);
        assert(span[last] =~= payload[last]);
        assert forall|i: int| 0 < i < last implies span[i] == payload[i] by {
            assert(t1[y + i] == payload.subrange(1, last)[i - 1]);
        }
    }
    assert(span =~= payload);
}

/// The position behind an insertion lies in the document that it leaves.
pub proof fn lemma_insert_in_text(t: Text, start: Pos, payload: Text)
    requires
        can_insert(t, start, payload),
    ensures
        insert_text(t, start, payload).len() == t.len() + payload.len() - 1,
        in_text(insert_text(t, start, payload), end_of_insert(t, start, payload)),
{
    let t1 = insert_text(t, start, payload);
    let row = t[start.y as int];
    let k = clamp_column(row, start.x) as int;
    let last = payload.len() - 1;
    let end = end_of_insert(t, start, payload);
    assert(t1[end.y as int] =~= if last == 0 {
        row.take(k) + payload[0] + row.skip(k)
    } else {
        payload[last] + row.skip(k)
    });
}

/// The start of a removed span lies in the document that the removal
/// leaves.
pub proof fn lemma_remove_in_text(t: Text, start: Pos, end: Pos)
    requires
        can_remove(t, start, end),
    ensures
        remove_text(t, start, end).len() == t.len() - (end.y - start.y),
        in_text(remove_text(t, start, end), start),
{
    let t1 = remove_text(t, start, end);
    let y = start.y as int;
    assert(t1[y] =~= t[y].take(start.x as int) + t[end.y as int].skip(end.x as int));
}

/// An insertion of rows without empty graphemes into a document without
/// empty graphemes leaves none.
pub proof fn lemma_insert_keeps_wf(t: Text, start: Pos, payload: Text)
    requires
        can_insert(t, start, payload),
        text_wf(t),
        text_wf(payload),
    ensures
        text_wf(insert_text(t, start, payload)),
        insert_text(t, start, payload).len() == t.len() + payload.len() - 1,
        in_text(insert_text(t, start, payload), end_of_insert(t, start, payload)),
{
    let t1 = insert_text(t, start, payload);
    let y = start.y as int;
    let row = t[y];
    let k = clamp_column(row, start.x) as int;
    let last = payload.len() - 1;
    assert(line_wf(row));
    assert(line_wf(payload[0]));
    assert(line_wf(payload[last]));
    assert forall|i: int| 0 <= i < t1.len() implies line_wf(#[trigger] t1[i]) by {
        if i < y {
            assert(t1[i] == t[i]);
        } else if i > y + last {
            assert(t1[i] == t[i - last]);
        } else if last == 0 {
            assert(t1[i] =~= row.take(k) + payload[0] + row.skip(k));
        } else if i == y {
            assert(t1[i] =~= row.take(k) + payload[0]);
        } else if i == y + last {
            assert(t1[i] =~= payload[last] + row.skip(k));
        } else {
            assert(t1[i] == payload.subrange(1, last)[i - y - 1]);
            assert(t1[i] == payload[i - y]);
        }
    }
    let end = end_of_insert(t, start, payload);
    assert(t1[end.y as int] =~= if last == 0 {
        row.take(k) + payload[0] + row.skip(k)
    } else {
        payload[last] + row.skip(k)
    });
}

/// A removal from a document without empty graphemes leaves none.
pub proof fn lemma_remove_keeps_wf(t: Text, start: Pos, end: Pos)
    requires
        can_remove(t, start, end),
        text_wf(t),
    ensures
        text_wf(remove_text(t, start, end)),
        remove_text(t, start, end).len() == t.len() - (end.y - start.y),
        in_text(remove_text(t, start, end), start),
{
    let t1 = remove_text(t, start, end);
    let y = start.y as int;
    assert(line_wf(t[y]));
    assert(line_wf(t[end.y as int]));
    assert forall|i: int| 0 <= i < t1.len() implies line_wf(#[trigger] t1[i]) by {
        if i < y {
            assert(t1[i] == t[i]);
        } else if i > y {
            assert(t1[i] == t[i + (end.y - start.y)]);
        } else {
            assert(t1[i] =~= t[y].take(start.x as int) + t[end.y as int].skip(end.x as int));
        }
    }
    assert(t1[y] =~= t[y].take(start.x as int) + t[end.y as int].skip(end.x as int));
}

/// What is extracted from a document without empty graphemes has none.
pub proof fn lemma_extract_keeps_wf(t: Text, a: Pos, b: Pos)
    requires
        can_remove(t, a, b),
        text_wf(t),
    ensures
        text_wf(extract_text(t, a, b)),
        extract_text(t, a, b).len() == b.y - a.y + 1,
{
    let span = extract_text(t, a, b);
    assert(line_wf(t[a.y as int]));
    assert(line_wf(t[b.y as int]));
    assert forall|i: int| 0 <= i < span.len() implies line_wf(#[trigger] span[i]) by {
        if a.y == b.y {
        } else if i == 0 {
        } else if i == span.len() - 1 {
        } else {
            assert(span[i] == t[a.y + i]);
        }
    }
}

} // verus!
