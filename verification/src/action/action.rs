use crate::text::{
    can_insert, can_remove, end_of_insert, insert_text, remove_text, spliced_rows, Text,
};
use crate::types::line::Line;
use crate::types::point::{Point, Pos};
use vstd::prelude::*;

verus! {

/// The two kinds of action.
#[derive(Debug, Clone, Copy, PartialEq, Eq, Structural)]
pub enum ActionType {
    Insert,
    Remove,
}

/// One edit of the document, as data. An insertion carries the rows to
/// insert in `payload`; a removal carries its exclusive end in `end`.
pub struct Action {
    pub start: Point,
    pub end: Option<Point>,
    pub payload: Option<Vec<Line>>,
    pub kind: ActionType,
}

/// The edit that an [`Action`] stands for.
pub enum Edit {
    /// Insert the rows of `payload` at `start`.
    Insert { start: Pos, payload: Text },
    /// Remove the span from `start` to `end` (exclusive).
    Remove { start: Pos, end: Pos },
    /// An action that lacks what its kind needs: an insertion without a
    /// payload, a removal without an end.
    Malformed,
}

impl Edit {
    /// The edit can be applied to the document `t`.
    pub open spec fn applies_to(self, t: Text) -> bool {
        match self {
            Edit::Insert { start, payload } => can_insert(t, start, payload),
            Edit::Remove { start, end } => can_remove(t, start, end),
            Edit::Malformed => false,
        }
    }

    /// The document `t` after the edit.
    pub open spec fn apply(self, t: Text) -> Text {
        match self {
            Edit::Insert { start, payload } => insert_text(t, start, payload),
            Edit::Remove { start, end } => remove_text(t, start, end),
            Edit::Malformed => t,
        }
    }

    /// Where the cursor stands after the edit was applied to `t`: behind
    /// what was inserted, or where the removed span began.
    pub open spec fn cursor(self, t: Text) -> Pos {
        match self {
            Edit::Insert { start, payload } => end_of_insert(t, start, payload),
            Edit::Remove { start, end } => start,
            Edit::Malformed => Pos { x: 0, y: 0 },
        }
    }
}

/// The number of graphemes of each row of `t`.
pub open spec fn shape_of(t: Text) -> Seq<nat> {
    Seq::new(t.len(), |i: int| t[i].len())
}

/// Whether an edit applies, and the shape of what it leaves, depend on the
/// shape of the document alone.
pub proof fn lemma_edit_by_shape(e: Edit, t1: Text, t2: Text)
    requires
        shape_of(t1) == shape_of(t2),
    ensures
        e.applies_to(t1) == e.applies_to(t2),
        e.applies_to(t1) ==> shape_of(e.apply(t1)) == shape_of(e.apply(t2)),
        e.applies_to(t1) ==> e.cursor(t1) == e.cursor(t2),
{
    let s1 = shape_of(t1);
    let s2 = shape_of(t2);
    assert(t1.len() == s1.len());
    assert(t2.len() == s2.len());
    assert forall|i: int| 0 <= i < t1.len() implies (#[trigger] t1[i]).len() == t2[i].len() by {
        assert(s1[i] == t1[i].len());
        assert(s2[i] == t2[i].len());
    }
    if e.applies_to(t1) {
        match e {
            Edit::Insert { start, payload } => {
                let y = start.y as int;
                assert(t1[y].len() == t2[y].len());
                let r1 = spliced_rows(t1[y], start.x, payload);
                let r2 = spliced_rows(t2[y], start.x, payload);
                assert(r1.len() == r2.len());
                assert forall|i: int| 0 <= i < r1.len() implies (#[trigger] r1[i]).len()
                    == r2[i].len() by {}
                let u1 = e.apply(t1);
                let u2 = e.apply(t2);
                assert(u1.len() == u2.len());
                assert forall|i: int| 0 <= i < u1.len() implies (#[trigger] u1[i]).len()
                    == u2[i].len() by {
                    if i < y {
                        assert(u1[i] == t1[i]);
                        assert(u2[i] == t2[i]);
                    } else if i < y + r1.len() {
                        assert(u1[i] == r1[i - y]);
                        assert(u2[i] == r2[i - y]);
                    } else {
                        assert(u1[i] == t1[i - r1.len() + 1]);
                        assert(u2[i] == t2[i - r1.len() + 1]);
                    }
                }
                assert(shape_of(u1) =~= shape_of(u2));
            },
            Edit::Remove { start, end } => {
                let y = start.y as int;
                assert(t1[y].len() == t2[y].len());
                assert(t1[end.y as int].len() == t2[end.y as int].len());
                let u1 = e.apply(t1);
                let u2 = e.apply(t2);
                assert(u1.len() == u2.len());
                assert forall|i: int| 0 <= i < u1.len() implies (#[trigger] u1[i]).len()
                    == u2[i].len() by {
                    if i < y {
                        assert(u1[i] == t1[i]);
                        assert(u2[i] == t2[i]);
                    } else if i > y {
                        assert(u1[i] == t1[i + (end.y - start.y)]);
                        assert(u2[i] == t2[i + (end.y - start.y)]);
                    } else {
                    }
                }
                assert(shape_of(u1) =~= shape_of(u2));
            },
            Edit::Malformed => {},
        }
    }
}

impl View for Action {
    type V = Edit;

    open spec fn view(&self) -> Edit {
        match self.kind {
            ActionType::Insert => match self.payload {
                Some(rows) => Edit::Insert { start: self.start@, payload: rows.deep_view() },
                None => Edit::Malformed,
            },
            ActionType::Remove => match self.end {
                Some(end) => Edit::Remove { start: self.start@, end: end@ },
                None => Edit::Malformed,
            },
        }
    }
}

impl DeepView for Action {
    type V = Edit;

    open spec fn deep_view(&self) -> Edit {
        self.view()
    }
}

/// A copy of the rows of `rows`.
pub fn clone_lines(rows: &Vec<Line>) -> (copy: Vec<Line>)
    ensures
        copy.deep_view() == rows.deep_view(),
{
    let mut copy: Vec<Line> = Vec::new();
    let mut i: usize = 0;
    while i < rows.len()
        invariant
            i <= rows.len(),
            copy.len() == i,
            forall|j: int| 0 <= j < i ==> (#[trigger] copy[j])@ == rows[j]@,
        decreases rows.len() - i,
    {
        copy.push(rows[i].clone());
        i += 1;
    }
    assert(copy.deep_view() =~= rows.deep_view());
    copy
}

impl Action {
    /// `self` is a copy of `other`: start, end and kind are the same, and
    /// both carry no payload or payloads of the same rows.
    pub open spec fn same_as(&self, other: &Action) -> bool {
        &&& self.start == other.start
        &&& self.end == other.end
        &&& self.kind == other.kind
        &&& match (self.payload, other.payload) {
            (Some(rows), Some(others)) => rows.deep_view() == others.deep_view(),
            (None, None) => true,
            _ => false,
        }
    }
}

impl Clone for Action {
    fn clone(&self) -> (copy: Self)
        ensures
            copy.same_as(self),
            copy@ == self@,
    {
        let payload = match &self.payload {
            Some(rows) => Some(clone_lines(rows)),
            None => None,
        };
        Action { start: self.start, end: self.end, payload, kind: self.kind }
    }
}

} // verus!
