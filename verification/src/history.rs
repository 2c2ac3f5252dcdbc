//! Undo and redo: the drawings saved before each change.
use vstd::prelude::*;
use crate::document::{DocModel, Document};

verus! {

/// The drawings that undo goes back to (the latest last) and those that redo
/// goes forward to (the latest undone last).
pub struct History {
    undo_stack: Vec<Document>,
    redo_stack: Vec<Document>,
}

/// A history as contracts see it.
pub struct HistoryModel {
    pub undo: Seq<DocModel>,
    pub redo: Seq<DocModel>,
}

impl View for History {
    type V = HistoryModel;

    closed spec fn view(&self) -> HistoryModel {
        HistoryModel {
            undo: self.undo_stack@.map_values(|d: Document| d@),
            redo: self.redo_stack@.map_values(|d: Document| d@),
        }
    }
}

/// The history once `d` is saved before a change: undo can go back to it,
/// and nothing is left to redo.
pub open spec fn snapshot_spec(h: HistoryModel, d: DocModel) -> HistoryModel {
    HistoryModel { undo: h.undo.push(d), redo: Seq::empty() }
}

/// Undo from the drawing `c`: the drawing it goes back to and the history
/// after, or `None` when there is nothing to undo.
pub open spec fn undo_spec(h: HistoryModel, c: DocModel) -> Option<(DocModel, HistoryModel)> {
    if h.undo.len() == 0 {
        None
    } else {
        Some((h.undo.last(), HistoryModel { undo: h.undo.drop_last(), redo: h.redo.push(c) }))
    }
}

/// Redo from the drawing `c`: the drawing it goes forward to and the
/// history after, or `None` when there is nothing to redo.
pub open spec fn redo_spec(h: HistoryModel, c: DocModel) -> Option<(DocModel, HistoryModel)> {
    if h.redo.len() == 0 {
        None
    } else {
        Some((h.redo.last(), HistoryModel { undo: h.undo.push(c), redo: h.redo.drop_last() }))
    }
}

/// Every drawing in the history satisfies `p`.
pub open spec fn all_docs(h: HistoryModel, p: spec_fn(DocModel) -> bool) -> bool {
    &&& forall|i: int| 0 <= i < h.undo.len() ==> p(#[trigger] h.undo[i])
    &&& forall|i: int| 0 <= i < h.redo.len() ==> p(#[trigger] h.redo[i])
}

impl History {
    /// A history with nothing to undo or redo.
    pub fn new() -> (h: History)
        ensures
            h@.undo == Seq::<DocModel>::empty(),
            h@.redo == Seq::<DocModel>::empty(),
    {
        let h = History { undo_stack: Vec::new(), redo_stack: Vec::new() };
        assert(h@.undo =~= Seq::<DocModel>::empty());
        assert(h@.redo =~= Seq::<DocModel>::empty());
        h
    }

    /// Saves `doc` as the drawing that the next undo goes back to; what
    /// could be redone is dropped.
    pub fn snapshot(&mut self, doc: &Document)
        ensures
            final(self)@ == snapshot_spec(old(self)@, doc@),
    {
        let ghost before = self.undo_stack@;
        self.undo_stack.push(doc.copy());
        self.redo_stack = Vec::new();
        assert(self@.undo =~= before.map_values(|d: Document| d@).push(doc@));
        assert(self@.redo =~= Seq::<DocModel>::empty());
    }

    /// Steps back from the drawing `current`: returns the drawing saved
    /// last, and keeps `current` for redo.
    pub fn undo(&mut self, current: &Document) -> (r: Option<Document>)
        ensures
            match undo_spec(old(self)@, current@) {
                None => r is None && final(self)@ == old(self)@,
                Some((d, h)) => r matches Some(x) && x@ == d && final(self)@ == h,
            },
    {
        let ghost before_u = self.undo_stack@;
        let ghost before_r = self.redo_stack@;
        match self.undo_stack.pop() {
            None => {
                assert(self@ == old(self)@);
                None
            },
            Some(prev) => {
                self.redo_stack.push(current.copy());
                assert(self@.undo =~= before_u.map_values(|d: Document| d@).drop_last());
                assert(self@.redo =~= before_r.map_values(|d: Document| d@).push(current@));
                Some(prev)
            },
        }
    }

    /// Steps forward from the drawing `current`: returns the drawing undone
    /// last, and keeps `current` for undo.
    pub fn redo(&mut self, current: &Document) -> (r: Option<Document>)
        ensures
            match redo_spec(old(self)@, current@) {
                None => r is None && final(self)@ == old(self)@,
                Some((d, h)) => r matches Some(x) && x@ == d && final(self)@ == h,
            },
    {
        let ghost before_u = self.undo_stack@;
        let ghost before_r = self.redo_stack@;
        match self.redo_stack.pop() {
            None => {
                assert(self@ == old(self)@);
                None
            },
            Some(next) => {
                self.undo_stack.push(current.copy());
                assert(self@.redo =~= before_r.map_values(|d: Document| d@).drop_last());
                assert(self@.undo =~= before_u.map_values(|d: Document| d@).push(current@));
                Some(next)
            },
        }
    }

    /// Drops the drawing saved last, for an edit that turned out to change
    /// nothing; what could be redone stays.
    pub fn discard_last(&mut self)
        ensures
            final(self)@ == (if old(self)@.undo.len() == 0 {
                old(self)@
            } else {
                HistoryModel { undo: old(self)@.undo.drop_last(), redo: old(self)@.redo }
            }),
    {
        let ghost before = self.undo_stack@;
        let _ = self.undo_stack.pop();
        assert(self@.undo =~= (if before.len() == 0 {
            before.map_values(|d: Document| d@)
        } else {
            before.map_values(|d: Document| d@).drop_last()
        }));
    }

    /// How many steps can be undone.
    pub fn undo_depth(&self) -> (r: usize)
        ensures
            r == self@.undo.len(),
    {
        self.undo_stack.len()
    }
}

/// Undo right after a snapshot of `d` gives `d` back, whatever the drawing
/// became meanwhile, and leaves that drawing to redo.
pub proof fn lemma_undo_after_snapshot(h: HistoryModel, d: DocModel, c: DocModel)
    ensures
        undo_spec(snapshot_spec(h, d), c) == Some(
            (d, HistoryModel { undo: h.undo, redo: seq![c] }),
        ),
{
    assert(snapshot_spec(h, d).undo.drop_last() =~= h.undo);
    assert(Seq::<DocModel>::empty().push(c) =~= seq![c]);
}

/// Redo undoes an undo: after an undo from `c`, redo from the drawing it
/// gave back returns `c` and the history as it was.
pub proof fn lemma_redo_after_undo(h: HistoryModel, c: DocModel)
    ensures
        undo_spec(h, c) matches Some((p, h2)) ==> redo_spec(h2, p) == Some((c, h)),
{
    if h.undo.len() > 0 {
        let h2 = (undo_spec(h, c)->0).1;
        assert(h2.undo.push(h.undo.last()) =~= h.undo);
        assert(h2.redo.drop_last() =~= h.redo);
    }
}

/// Undo undoes a redo: after a redo from `c`, undo from the drawing it gave
/// back returns `c` and the history as it was.
pub proof fn lemma_undo_after_redo(h: HistoryModel, c: DocModel)
    ensures
        redo_spec(h, c) matches Some((n, h2)) ==> undo_spec(h2, n) == Some((c, h)),
{
    if h.redo.len() > 0 {
        let h2 = (redo_spec(h, c)->0).1;
        assert(h2.redo.push(h.redo.last()) =~= h.redo);
        assert(h2.undo.drop_last() =~= h.undo);
    }
}

} // verus!
