use super::action::{lemma_edit_by_shape, shape_of, Action, Edit};
use crate::text::Text;
use vstd::prelude::*;

verus! {

/// One completed edit: the action that made it and the action that takes
/// it back, both as they were when the edit was made.
pub struct UndoNode {
    pub redo: Action,
    pub undo: Action,
}

/// What an [`UndoNode`] stands for.
pub struct NodeView {
    pub redo: Edit,
    pub undo: Edit,
}

impl View for UndoNode {
    type V = NodeView;

    open spec fn view(&self) -> NodeView {
        NodeView { redo: self.redo@, undo: self.undo@ }
    }
}

impl DeepView for UndoNode {
    type V = NodeView;

    open spec fn deep_view(&self) -> NodeView {
        self.view()
    }
}

/// A linear history of edits. The first `index` nodes are applied; the
/// nodes from `index` on were undone and can be redone.
pub struct UndoStack {
    pub nodes: Vec<UndoNode>,
    pub index: usize,
}

/// What an [`UndoStack`] stands for.
pub struct History {
    pub nodes: Seq<NodeView>,
    pub index: nat,
}

/// Every one of the first `k` nodes can be undone, one after the other,
/// from a document of the shape of `t`: its undo applies, and its redo then
/// applies and leads back to that shape.
pub open spec fn undoable_from(nodes: Seq<NodeView>, k: nat, t: Text) -> bool
    decreases k,
{
    k == 0 || {
        let node = nodes[k - 1];
        let before = node.undo.apply(t);
        &&& k <= nodes.len()
        &&& node.undo.applies_to(t)
        &&& node.redo.applies_to(before)
        &&& shape_of(node.redo.apply(before)) == shape_of(t)
        &&& undoable_from(nodes, (k - 1) as nat, before)
    }
}

/// Every node from the `k`-th on can be redone, one after the other, from
/// a document of the shape of `t`: its redo applies, and its undo then
/// applies and leads back to that shape.
pub open spec fn redoable_from(nodes: Seq<NodeView>, k: nat, t: Text) -> bool
    decreases nodes.len() - k,
{
    k >= nodes.len() || {
        let node = nodes[k as int];
        let after = node.redo.apply(t);
        &&& node.redo.applies_to(t)
        &&& node.undo.applies_to(after)
        &&& shape_of(node.undo.apply(after)) == shape_of(t)
        &&& redoable_from(nodes, k + 1, after)
    }
}

impl History {
    /// The index lies within the nodes.
    pub open spec fn wf(self) -> bool {
        self.index <= self.nodes.len()
    }

    /// The history after a new edit: what was undone is dropped, the new
    /// node is the last, and every node is applied.
    pub open spec fn added(self, node: NodeView) -> History {
        History {
            nodes: if self.index < self.nodes.len() {
                self.nodes.take(self.index as int).push(node)
            } else {
                self.nodes.push(node)
            },
            index: self.index + 1,
        }
    }

    /// The edit that an undo applies, if there is one.
    pub open spec fn undo_edit(self) -> Option<Edit> {
        if self.index == 0 {
            None
        } else {
            Some(self.nodes[self.index - 1].undo)
        }
    }

    /// The history after an undo.
    pub open spec fn undone(self) -> History {
        if self.index == 0 {
            self
        } else {
            History { nodes: self.nodes, index: (self.index - 1) as nat }
        }
    }

    /// The edit that a redo applies, if there is one.
    pub open spec fn redo_edit(self) -> Option<Edit> {
        if self.index == self.nodes.len() {
            None
        } else {
            Some(self.nodes[self.index as int].redo)
        }
    }

    /// The history after a redo.
    pub open spec fn redone(self) -> History {
        if self.index == self.nodes.len() {
            self
        } else {
            History { nodes: self.nodes, index: self.index + 1 }
        }
    }

    /// The history fits the document `t`: from `t`, every applied node can
    /// be undone and every undone node redone.
    pub open spec fn fits(self, t: Text) -> bool {
        &&& self.wf()
        &&& undoable_from(self.nodes, self.index, t)
        &&& redoable_from(self.nodes, self.index, t)
    }
}

impl View for UndoStack {
    type V = History;

    open spec fn view(&self) -> History {
        History { nodes: self.nodes.deep_view(), index: self.index as nat }
    }
}

impl UndoStack {
    /// The index lies within the nodes.
    pub open spec fn wf(&self) -> bool {
        self@.wf()
    }

    /// The empty history.
    pub fn new() -> (stack: Self)
        ensures
            stack@.nodes == Seq::<NodeView>::empty(),
            stack@.index == 0,
            stack.wf(),
    {
        let stack = Self { nodes: Vec::new(), index: 0 };
        assert(stack@.nodes =~= Seq::<NodeView>::empty());
        stack
    }

    /// Records a new edit. Nodes that were undone are dropped first.
    pub fn add(&mut self, redo: Action, undo: Action)
        requires
            old(self).wf(),
        ensures
            final(self).nodes@ == (if old(self).index < old(self).nodes.len() {
                old(self).nodes@.take(old(self).index as int)
            } else {
                old(self).nodes@
            }).push(UndoNode { redo, undo }),
            final(self)@ == old(self)@.added(NodeView { redo: redo@, undo: undo@ }),
            final(self).wf(),
            final(self)@.index == final(self)@.nodes.len(),
    {
        if self.index < self.nodes.len() {
            self.nodes.truncate(self.index);
        }
        self.nodes.push(UndoNode { redo, undo });
        assert(self.index < self.nodes.len());
        self.index += 1;
        assert(self@.nodes =~= old(self)@.added(NodeView { redo: redo@, undo: undo@ }).nodes);
    }

    /// Steps back over the last applied node and returns its inverse
    /// action; `None` where nothing is applied.
    pub fn undo(&mut self) -> (action: Option<Action>)
        requires
            old(self).wf(),
        ensures
            final(self).nodes@ == old(self).nodes@,
            final(self)@ == old(self)@.undone(),
            final(self).wf(),
            match action {
                Some(a) => {
                    &&& old(self).index > 0
                    &&& a.same_as(&old(self).nodes@[old(self).index - 1].undo)
                    &&& old(self)@.undo_edit() == Some(a@)
                },
                None => old(self)@.undo_edit() is None,
            },
    {
        if self.index == 0 {
            return None;
        }
        self.index -= 1;
        Some(self.nodes[self.index].undo.clone())
    }

    /// Steps forward over the first undone node and returns its action;
    /// `None` where nothing is undone.
    pub fn redo(&mut self) -> (action: Option<Action>)
        requires
            old(self).wf(),
        ensures
            final(self).nodes@ == old(self).nodes@,
            final(self)@ == old(self)@.redone(),
            final(self).wf(),
            match action {
                Some(a) => {
                    &&& old(self).index < old(self).nodes.len()
                    &&& a.same_as(&old(self).nodes@[old(self).index as int].redo)
                    &&& old(self)@.redo_edit() == Some(a@)
                },
                None => old(self)@.redo_edit() is None,
            },
    {
        if self.index == self.nodes.len() {
            return None;
        }
        self.index += 1;
        Some(self.nodes[self.index - 1].redo.clone())
    }
}

/// Right after a new edit nothing can be redone.
pub proof fn lemma_added_has_no_redo(h: History, node: NodeView)
    requires
        h.wf(),
    ensures
        h.added(node).wf(),
        h.added(node).redo_edit() is None,
        h.added(node).undo_edit() == Some(node.undo),
        h.added(node).nodes == h.nodes.take(h.index as int).push(node),
{
    assert(h.nodes.take(h.nodes.len() as int) =~= h.nodes);
}

/// A new edit made after an undo discards what was undone for good: after
/// the edits `a` and `b`, one undo and the edit `c`, the history ends in
/// `a`, `c`, and no redo is left.
pub proof fn lemma_edit_after_undo_drops_branch(h: History, a: NodeView, b: NodeView, c: NodeView)
    requires
        h.wf(),
    ensures
        ({
            let end = h.added(a).added(b).undone().added(c);
            &&& end.nodes == h.nodes.take(h.index as int).push(a).push(c)
            &&& end.index == end.nodes.len()
            &&& end.redo_edit() is None
        }),
{
    lemma_added_has_no_redo(h, a);
    let h1 = h.added(a);
    lemma_added_has_no_redo(h1, b);
    let h2 = h1.added(b);
    let h3 = h2.undone();
    assert(h3.index == h.index + 1);
    assert(h3.nodes.take(h3.index as int) =~= h.nodes.take(h.index as int).push(a));
    let end = h3.added(c);
    assert(end.nodes =~= h.nodes.take(h.index as int).push(a).push(c));
}

/// Whether a history can be undone from a document depends on its applied
/// nodes and on the shape of the document alone.
pub proof fn lemma_undoable_by_shape(
    n1: Seq<NodeView>,
    n2: Seq<NodeView>,
    k: nat,
    t1: Text,
    t2: Text,
)
    requires
        shape_of(t1) == shape_of(t2),
        k <= n1.len(),
        k <= n2.len(),
        n1.take(k as int) == n2.take(k as int),
    ensures
        undoable_from(n1, k, t1) == undoable_from(n2, k, t2),
    decreases k,
{
    if k > 0 {
        let node = n1[k - 1];
        assert(node == n1.take(k as int)[k - 1]);
        assert(node == n2[k - 1]);
        lemma_edit_by_shape(node.undo, t1, t2);
        if node.undo.applies_to(t1) {
            let b1 = node.undo.apply(t1);
            let b2 = node.undo.apply(t2);
            lemma_edit_by_shape(node.redo, b1, b2);
            assert(n1.take(k - 1) =~= n1.take(k as int).take(k - 1));
            assert(n2.take(k - 1) =~= n2.take(k as int).take(k - 1));
            lemma_undoable_by_shape(n1, n2, (k - 1) as nat, b1, b2);
        }
    }
}

/// Whether a history can be redone from a document depends on the shape of
/// the document alone.
pub proof fn lemma_redoable_by_shape(nodes: Seq<NodeView>, k: nat, t1: Text, t2: Text)
    requires
        shape_of(t1) == shape_of(t2),
    ensures
        redoable_from(nodes, k, t1) == redoable_from(nodes, k, t2),
    decreases nodes.len() - k,
{
    if k < nodes.len() {
        let node = nodes[k as int];
        lemma_edit_by_shape(node.redo, t1, t2);
        if node.redo.applies_to(t1) {
            let a1 = node.redo.apply(t1);
            let a2 = node.redo.apply(t2);
            lemma_edit_by_shape(node.undo, a1, a2);
            lemma_redoable_by_shape(nodes, k + 1, a1, a2);
        }
    }
}

/// A history that fits a document fits every document of the same shape.
pub proof fn lemma_fits_by_shape(h: History, t1: Text, t2: Text)
    requires
        shape_of(t1) == shape_of(t2),
        h.fits(t1),
    ensures
        h.fits(t2),
{
    lemma_undoable_by_shape(h.nodes, h.nodes, h.index, t1, t2);
    lemma_redoable_by_shape(h.nodes, h.index, t1, t2);
}

/// After an undo the history fits the document that the undo leaves.
pub proof fn lemma_undone_fits(h: History, t: Text)
    requires
        h.fits(t),
        h.index > 0,
    ensures
        h.undo_edit()->0.applies_to(t),
        h.undone().fits(h.undo_edit()->0.apply(t)),
{
    let node = h.nodes[h.index - 1];
    let before = node.undo.apply(t);
    let again = node.redo.apply(before);
    lemma_edit_by_shape(node.undo, again, t);
    lemma_redoable_by_shape(h.nodes, h.index, again, t);
    assert(redoable_from(h.nodes, (h.index - 1) as nat, before));
}

/// After a redo the history fits the document that the redo leaves.
pub proof fn lemma_redone_fits(h: History, t: Text)
    requires
        h.fits(t),
        h.index < h.nodes.len(),
    ensures
        h.redo_edit()->0.applies_to(t),
        h.redone().fits(h.redo_edit()->0.apply(t)),
{
    let node = h.nodes[h.index as int];
    let after = node.redo.apply(t);
    let again = node.undo.apply(after);
    lemma_edit_by_shape(node.redo, again, t);
    lemma_undoable_by_shape(h.nodes, h.nodes, h.index, again, t);
    assert(undoable_from(h.nodes, h.index + 1, after));
}

/// A new node whose redo leads from `t` to `after` and whose undo leads
/// back to `t` extends a history that fits `t` to one that fits `after`.
pub proof fn lemma_added_fits(h: History, node: NodeView, t: Text)
    requires
        h.fits(t),
        node.redo.applies_to(t),
        node.undo.applies_to(node.redo.apply(t)),
        node.undo.apply(node.redo.apply(t)) == t,
    ensures
        h.added(node).fits(node.redo.apply(t)),
{
    let g = h.added(node);
    let after = node.redo.apply(t);
    lemma_added_has_no_redo(h, node);
    assert(g.nodes[g.index - 1] == node);
    assert(g.nodes.take(h.index as int) =~= h.nodes.take(h.index as int));
    lemma_undoable_by_shape(g.nodes, h.nodes, h.index, t, t);
    assert(undoable_from(g.nodes, g.index, after));
    assert(redoable_from(g.nodes, g.index, after));
}

} // verus!
