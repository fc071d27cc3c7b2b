//! The undo/redo log: an append-ordered stack of applied operations with a
//! cursor separating applied entries from the undone-but-retained redo tail.

use vstd::prelude::*;

use crate::operation::{apply_spec, opt_int, undo_spec, OpError, Operation, OpV};
use crate::script::Document;

verus! {

impl DeepView for Operation {
    type V = OpV;

    open spec fn deep_view(&self) -> OpV {
        self@
    }
}

/// The log of applied operations. Entries before the cursor are applied;
/// entries at and after it are the redo tail. A new edit after an undo
/// discards the redo tail.
pub struct History {
    /// The logged operations, oldest first.
    pub entries: Vec<Operation>,
    /// Entries before the cursor are applied; the rest are the redo tail.
    pub cursor: usize,
}

impl History {
    /// The logged operations, oldest first.
    pub open spec fn ops(self) -> Seq<OpV> {
        self.entries.deep_view()
    }

    /// How many logged operations are currently applied.
    pub open spec fn applied(self) -> int {
        self.cursor as int
    }

    pub open spec fn wf(self) -> bool {
        self.cursor <= self.entries.len()
    }

    /// Creates an empty history.
    pub fn new() -> (r: History)
        ensures
            r.wf(),
            r.ops() == Seq::<OpV>::empty(),
            r.applied() == 0,
    {
        let h = History { entries: Vec::new(), cursor: 0 };
        proof {
            assert(h.ops() =~= Seq::<OpV>::empty());
        }
        h
    }

    /// Applies `op` to the document and pushes it, discarding the redo tail.
    /// On failure neither the document nor the history changes.
    pub fn apply(&mut self, doc: &mut Document, op: Operation) -> (r: Result<
        Option<usize>,
        OpError,
    >)
        requires
            old(self).wf(),
            old(doc).wf(),
        ensures
            final(self).wf(),
            final(doc).wf(),
            match r {
                Ok(inv) => {
                    &&& apply_spec(op@, old(doc)@) == Ok::<_, OpError>((final(doc)@, opt_int(inv)))
                    &&& final(self).ops() == old(self).ops().take(old(self).applied()).push(op@)
                    &&& final(self).applied() == old(self).applied() + 1
                },
                Err(e) => {
                    &&& final(doc)@ == old(doc)@
                    &&& apply_spec(op@, old(doc)@) == Err::<(Seq<crate::script::LineV>, Option<
                        int,
                    >), OpError>(e)
                    &&& final(self).ops() == old(self).ops()
                    &&& final(self).applied() == old(self).applied()
                },
            },
    {
        let ghost ops0 = self.ops();
        let inv = match op.apply(doc) {
            Ok(inv) => inv,
            Err(e) => {
                return Err(e);
            },
        };
        self.entries.truncate(self.cursor);
        let ghost opv = op@;
        self.entries.push(op);
        self.cursor = self.entries.len();
        proof {
            assert(self.ops() =~= ops0.take(old(self).applied()).push(opv));
        }
        Ok(inv)
    }

    /// Undoes the most recent applied entry and moves the cursor back over
    /// it, keeping it as the redo tail. Returns `Ok(None)` when nothing is
    /// applied; on failure neither the document nor the history changes.
    pub fn undo(&mut self, doc: &mut Document) -> (r: Result<Option<Option<usize>>, OpError>)
        requires
            old(self).wf(),
            old(doc).wf(),
        ensures
            final(self).wf(),
            final(doc).wf(),
            final(self).ops() == old(self).ops(),
            match r {
                Ok(None) => {
                    &&& old(self).applied() == 0
                    &&& final(doc)@ == old(doc)@
                    &&& final(self).applied() == 0
                },
                Ok(Some(inv)) => {
                    &&& old(self).applied() > 0
                    &&& undo_spec(old(self).ops()[old(self).applied() - 1], old(doc)@) == Ok::<
                        _,
                        OpError,
                    >((final(doc)@, opt_int(inv)))
                    &&& final(self).applied() == old(self).applied() - 1
                },
                Err(e) => {
                    &&& old(self).applied() > 0
                    &&& final(doc)@ == old(doc)@
                    &&& undo_spec(old(self).ops()[old(self).applied() - 1], old(doc)@) == Err::<
                        (Seq<crate::script::LineV>, Option<int>),
                        OpError,
                    >(e)
                    &&& final(self).applied() == old(self).applied()
                },
            },
    {
        if self.cursor == 0 {
            return Ok(None);
        }
        let op = &self.entries[self.cursor - 1];
        let inv = match op.undo(doc) {
            Ok(inv) => inv,
            Err(e) => {
                return Err(e);
            },
        };
        self.cursor = self.cursor - 1;
        Ok(Some(inv))
    }

    /// Re-applies the first entry of the redo tail and moves the cursor past
    /// it. Returns `Ok(None)` when there is nothing to redo; on failure
    /// neither the document nor the history changes.
    pub fn redo(&mut self, doc: &mut Document) -> (r: Result<Option<Option<usize>>, OpError>)
        requires
            old(self).wf(),
            old(doc).wf(),
        ensures
            final(self).wf(),
            final(doc).wf(),
            final(self).ops() == old(self).ops(),
            match r {
                Ok(None) => {
                    &&& old(self).applied() == old(self).ops().len()
                    &&& final(doc)@ == old(doc)@
                    &&& final(self).applied() == old(self).applied()
                },
                Ok(Some(inv)) => {
                    &&& old(self).applied() < old(self).ops().len()
                    &&& apply_spec(old(self).ops()[old(self).applied()], old(doc)@) == Ok::<
                        _,
                        OpError,
                    >((final(doc)@, opt_int(inv)))
                    &&& final(self).applied() == old(self).applied() + 1
                },
                Err(e) => {
                    &&& old(self).applied() < old(self).ops().len()
                    &&& final(doc)@ == old(doc)@
                    &&& apply_spec(old(self).ops()[old(self).applied()], old(doc)@) == Err::<
                        (Seq<crate::script::LineV>, Option<int>),
                        OpError,
                    >(e)
                    &&& final(self).applied() == old(self).applied()
                },
            },
    {
        if self.cursor == self.entries.len() {
            return Ok(None);
        }
        let op = &self.entries[self.cursor];
        let inv = match op.apply(doc) {
            Ok(inv) => inv,
            Err(e) => {
                return Err(e);
            },
        };
        self.cursor = self.cursor + 1;
        Ok(Some(inv))
    }
}

/// Combines the invalidation reports of two edits of one batch: the consumer
/// must discard from the earliest changed frame, so the result is the
/// minimum, and `None` only when neither edit changed a frame.
pub fn combine_invalidation(a: Option<usize>, b: Option<usize>) -> (r: Option<usize>)
    ensures
        match (a, b) {
            (None, None) => r is None,
            (Some(x), None) => r == Some(x),
            (None, Some(y)) => r == Some(y),
            (Some(x), Some(y)) => r == Some(if x <= y { x } else { y }),
        },
{
    match (a, b) {
        (None, None) => None,
        (Some(x), None) => Some(x),
        (None, Some(y)) => Some(y),
        (Some(x), Some(y)) => Some(if x <= y { x } else { y }),
    }
}

} // verus!
