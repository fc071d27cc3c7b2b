//! The closed set of invertible edit operations over a document.
//!
//! Every operation stores both the pre- and post-edit values it needs to
//! undo itself exactly. Applying or undoing an operation either performs the
//! whole edit and reports the earliest invalidated frame, or fails before
//! writing anything: a failure means the operation log and the document have
//! desynchronized and is never recovered here.

use vstd::prelude::*;

use crate::addressing::{bulk_line_idx, frame_owner_idx, frame_repeat, lemma_frame_owner, lemma_bulk_idx_update_bulk, lemma_frame_owner_unique, lemma_bulk_line_idx_bounds};
use crate::parse::{parse_line, parse_spec};
use crate::script::{
    doc_wf, lemma_prefix_frames_insert, lemma_prefix_frames_mono, lemma_prefix_frames_remove,
    lemma_prefix_frames_update, line_frames, line_wf, prefix_frames, total_frames, Document,
    FrameBulk, Key, Line, LineV,
};

verus! {

/// Why an apply or undo failed. Every failure is fatal at this layer: it
/// signals that the operation log and the document have desynchronized.
#[derive(Debug, Clone, Copy, PartialEq, Eq, Structural)]
pub enum OpError {
    /// A bulk, line or frame index lies past the end of the document.
    IndexOutOfRange,
    /// A stored pre- or post-edit value disagrees with the document.
    ValueMismatch,
    /// The addressed bulk has no yaw or no left-right count to edit.
    MissingField,
    /// A count field would be set to zero.
    InvalidCount,
    /// A split or merge point does not lie where the operation demands.
    SplitPoint,
    /// A frame count would exceed what the machine can address.
    FrameCountOverflow,
    /// Stored line text failed to re-parse.
    LineUnparseable,
}

/// One invertible edit. Yaw angles are carried as the bit patterns of their
/// 32-bit floating-point values; the engine only stores, compares and swaps
/// them, so the bits carry everything it reads.
#[derive(Debug, Clone, PartialEq)]
pub enum Operation {
    SetFrameCount { bulk_idx: usize, from: u32, to: u32 },
    SetYaw { bulk_idx: usize, from: u32, to: u32 },
    Delete { line_idx: usize, line: String },
    Split { frame_idx: usize },
    Replace { line_idx: usize, from: String, to: String },
    ToggleKey { bulk_idx: usize, key: Key, to: bool },
    Insert { line_idx: usize, line: String },
    SetLeftRightCount { bulk_idx: usize, from: u32, to: u32 },
}

/// The mathematical value of an [`Operation`]: stored line texts are
/// sequences of characters.
pub enum OpV {
    SetFrameCount { bulk_idx: usize, from: u32, to: u32 },
    SetYaw { bulk_idx: usize, from: u32, to: u32 },
    Delete { line_idx: usize, line: Seq<char> },
    Split { frame_idx: usize },
    Replace { line_idx: usize, from: Seq<char>, to: Seq<char> },
    ToggleKey { bulk_idx: usize, key: Key, to: bool },
    Insert { line_idx: usize, line: Seq<char> },
    SetLeftRightCount { bulk_idx: usize, from: u32, to: u32 },
}

impl View for Operation {
    type V = OpV;

    open spec fn view(&self) -> OpV {
        match self {
            Operation::SetFrameCount { bulk_idx, from, to } => (OpV::SetFrameCount {
                bulk_idx: *bulk_idx,
                from: *from,
                to: *to,
            }),
            Operation::SetYaw { bulk_idx, from, to } => (OpV::SetYaw {
                bulk_idx: *bulk_idx,
                from: *from,
                to: *to,
            }),
            Operation::Delete { line_idx, line } => (OpV::Delete {
                line_idx: *line_idx,
                line: line@,
            }),
            Operation::Split { frame_idx } => (OpV::Split { frame_idx: *frame_idx }),
            Operation::Replace { line_idx, from, to } => (OpV::Replace {
                line_idx: *line_idx,
                from: from@,
                to: to@,
            }),
            Operation::ToggleKey { bulk_idx, key, to } => (OpV::ToggleKey {
                bulk_idx: *bulk_idx,
                key: *key,
                to: *to,
            }),
            Operation::Insert { line_idx, line } => (OpV::Insert {
                line_idx: *line_idx,
                line: line@,
            }),
            Operation::SetLeftRightCount { bulk_idx, from, to } => (OpV::SetLeftRightCount {
                bulk_idx: *bulk_idx,
                from: *from,
                to: *to,
            }),
        }
    }
}

/// An invalidation report widened to mathematical integers.
pub open spec fn opt_int(o: Option<usize>) -> Option<int> {
    match o {
        Some(v) => Some(v as int),
        None => None,
    }
}

/// What applying `op` to a document does: either the edited document together
/// with the earliest invalidated frame (`None` when no frame's content
/// changed), or the error that aborts the edit before any write.
pub open spec fn apply_spec(op: OpV, doc: Seq<LineV>) -> Result<
    (Seq<LineV>, Option<int>),
    OpError,
> {
    match op {
        OpV::SetFrameCount { bulk_idx, from, to } => {
            let l = bulk_line_idx(doc, bulk_idx as int);
            if l >= doc.len() {
                Err(OpError::IndexOutOfRange)
            } else {
                let b = doc[l]->Bulk_0;
                if b.frame_count != from {
                    Err(OpError::ValueMismatch)
                } else if from == to {
                    Ok((doc, None))
                } else if to == 0 {
                    Err(OpError::InvalidCount)
                } else if total_frames(doc) - from + to > usize::MAX {
                    Err(OpError::FrameCountOverflow)
                } else {
                    let m: u32 = if from <= to { from } else { to };
                    Ok(
                        (
                            doc.update(l, LineV::Bulk(FrameBulk { frame_count: to, ..b })),
                            Some(prefix_frames(doc, l) + m),
                        ),
                    )
                }
            }
        },
        OpV::SetYaw { bulk_idx, from, to } => {
            let l = bulk_line_idx(doc, bulk_idx as int);
            if l >= doc.len() {
                Err(OpError::IndexOutOfRange)
            } else {
                let b = doc[l]->Bulk_0;
                match b.yaw {
                    None => Err(OpError::MissingField),
                    Some(y) => {
                        if y != from {
                            Err(OpError::ValueMismatch)
                        } else if from == to {
                            Ok((doc, None))
                        } else {
                            Ok(
                                (
                                    doc.update(l, LineV::Bulk(FrameBulk { yaw: Some(to), ..b })),
                                    Some(prefix_frames(doc, l)),
                                ),
                            )
                        }
                    },
                }
            }
        },
        OpV::Delete { line_idx, .. } => {
            if line_idx >= doc.len() {
                Err(OpError::IndexOutOfRange)
            } else {
                Ok((doc.remove(line_idx as int), Some(prefix_frames(doc, line_idx as int))))
            }
        },
        OpV::Split { frame_idx } => {
            let l = frame_owner_idx(doc, frame_idx as int);
            if l >= doc.len() {
                Err(OpError::IndexOutOfRange)
            } else {
                let b = doc[l]->Bulk_0;
                let rep = frame_repeat(doc, frame_idx as int);
                if rep == 0 {
                    Err(OpError::SplitPoint)
                } else {
                    let first = FrameBulk { frame_count: rep as u32, ..b };
                    let second = FrameBulk { frame_count: (b.frame_count - rep) as u32, ..b };
                    Ok(
                        (
                            doc.update(l, LineV::Bulk(first)).insert(l + 1, LineV::Bulk(second)),
                            None,
                        ),
                    )
                }
            }
        },
        OpV::Replace { line_idx, to, .. } => {
            match parse_spec(to) {
                None => Err(OpError::LineUnparseable),
                Some(l2) => {
                    if line_idx >= doc.len() {
                        Err(OpError::IndexOutOfRange)
                    } else if total_frames(doc) - line_frames(doc[line_idx as int]) + line_frames(l2)
                        > usize::MAX {
                        Err(OpError::FrameCountOverflow)
                    } else {
                        Ok(
                            (
                                doc.update(line_idx as int, l2),
                                Some(prefix_frames(doc, line_idx as int)),
                            ),
                        )
                    }
                },
            }
        },
        OpV::ToggleKey { bulk_idx, key, to } => {
            let l = bulk_line_idx(doc, bulk_idx as int);
            if l >= doc.len() {
                Err(OpError::IndexOutOfRange)
            } else {
                let b = doc[l]->Bulk_0;
                if b.spec_key(key) == to {
                    Err(OpError::ValueMismatch)
                } else {
                    Ok(
                        (
                            doc.update(l, LineV::Bulk(b.spec_with_key(key, to))),
                            Some(prefix_frames(doc, l)),
                        ),
                    )
                }
            }
        },
        OpV::Insert { line_idx, line } => {
            match parse_spec(line) {
                None => Err(OpError::LineUnparseable),
                Some(l2) => {
                    if line_idx > doc.len() {
                        Err(OpError::IndexOutOfRange)
                    } else if total_frames(doc) + line_frames(l2) > usize::MAX {
                        Err(OpError::FrameCountOverflow)
                    } else {
                        Ok(
                            (
                                doc.insert(line_idx as int, l2),
                                Some(prefix_frames(doc, line_idx as int)),
                            ),
                        )
                    }
                },
            }
        },
        OpV::SetLeftRightCount { bulk_idx, from, to } => {
            let l = bulk_line_idx(doc, bulk_idx as int);
            if l >= doc.len() {
                Err(OpError::IndexOutOfRange)
            } else {
                let b = doc[l]->Bulk_0;
                match b.left_right_count {
                    None => Err(OpError::MissingField),
                    Some(c) => {
                        if c != from {
                            Err(OpError::ValueMismatch)
                        } else if from == to {
                            Ok((doc, None))
                        } else if to == 0 {
                            Err(OpError::InvalidCount)
                        } else {
                            Ok(
                                (
                                    doc.update(
                                        l,
                                        LineV::Bulk(FrameBulk { left_right_count: Some(to), ..b }),
                                    ),
                                    Some(prefix_frames(doc, l)),
                                ),
                            )
                        }
                    },
                }
            }
        },
    }
}

/// What undoing `op` does: the exact inverse of its apply effect, with the
/// same failure discipline.
pub open spec fn undo_spec(op: OpV, doc: Seq<LineV>) -> Result<
    (Seq<LineV>, Option<int>),
    OpError,
> {
    match op {
        OpV::SetFrameCount { bulk_idx, from, to } => (apply_spec(
            OpV::SetFrameCount { bulk_idx, from: to, to: from },
            doc,
        )),
        OpV::SetYaw { bulk_idx, from, to } => (apply_spec(
            OpV::SetYaw { bulk_idx, from: to, to: from },
            doc,
        )),
        OpV::Delete { line_idx, line } => apply_spec(OpV::Insert { line_idx, line }, doc),
        OpV::Split { frame_idx } => {
            let l = frame_owner_idx(doc, frame_idx as int);
            if l >= doc.len() {
                Err(OpError::IndexOutOfRange)
            } else if frame_repeat(doc, frame_idx as int) != 0 {
                Err(OpError::SplitPoint)
            } else if l == 0 {
                Err(OpError::SplitPoint)
            } else if !(doc[l - 1] is Bulk) {
                Err(OpError::SplitPoint)
            } else {
                let prev = doc[l - 1]->Bulk_0;
                let cur = doc[l]->Bulk_0;
                if cur.frame_count + prev.frame_count > u32::MAX {
                    Err(OpError::FrameCountOverflow)
                } else {
                    let merged = FrameBulk {
                        frame_count: (cur.frame_count + prev.frame_count) as u32,
                        ..cur
                    };
                    Ok((doc.remove(l - 1).update(l - 1, LineV::Bulk(merged)), None))
                }
            }
        },
        OpV::Replace { line_idx, from, to } => (apply_spec(
            OpV::Replace { line_idx, from: to, to: from },
            doc,
        )),
        OpV::ToggleKey { bulk_idx, key, to } => (apply_spec(
            OpV::ToggleKey { bulk_idx, key, to: !to },
            doc,
        )),
        OpV::Insert { line_idx, line } => apply_spec(OpV::Delete { line_idx, line }, doc),
        OpV::SetLeftRightCount { bulk_idx, from, to } => (apply_spec(
            OpV::SetLeftRightCount { bulk_idx, from: to, to: from },
            doc,
        )),
    }
}

impl Document {
    /// Total length of the expanded timeline.
    fn total_frames_exec(&self) -> (r: usize)
        requires
            self.wf(),
        ensures
            r == total_frames(self@),
    {
        self.start_frame_at(self.lines.len())
    }
}

/// Reads the bulk out of a line known to hold one.
fn read_bulk(line: &Line) -> (r: FrameBulk)
    requires
        line@ is Bulk,
    ensures
        line@ == LineV::Bulk(r),
{
    match line {
        Line::Bulk(b) => *b,
        Line::Other(_) => vstd::pervasive::unreached(),
    }
}

/// Frames one line contributes to the timeline.
fn line_frame_count(line: &Line) -> (r: u32)
    ensures
        r == line_frames(line@),
{
    match line {
        Line::Bulk(b) => b.frame_count,
        Line::Other(_) => 0,
    }
}

/// Locates bulk number `bulk_idx`: its line index, starting frame and value.
fn locate_bulk(doc: &Document, bulk_idx: usize) -> (r: Result<(usize, usize, FrameBulk), OpError>)
    requires
        doc.wf(),
    ensures
        match r {
            Ok((l, s, b)) => {
                &&& l == bulk_line_idx(doc@, bulk_idx as int)
                &&& l < doc@.len()
                &&& doc@[l as int] == LineV::Bulk(b)
                &&& s == prefix_frames(doc@, l as int)
                &&& s + b.frame_count <= total_frames(doc@)
            },
            Err(e) => {
                &&& e == OpError::IndexOutOfRange
                &&& bulk_line_idx(doc@, bulk_idx as int) >= doc@.len()
            },
        },
{
    match doc.bulk_at(bulk_idx) {
        None => Err(OpError::IndexOutOfRange),
        Some((l, s)) => {
            let b = read_bulk(&doc.lines[l]);
            proof {
                assert(prefix_frames(doc@, l + 1) == prefix_frames(doc@, l as int)
                    + line_frames(doc@[l as int]));
                lemma_prefix_frames_mono(doc@, l + 1, doc@.len() as int);
            }
            Ok((l, s, b))
        },
    }
}

/// Overwrites the line at `l`.
fn set_line(doc: &mut Document, l: usize, line: Line)
    requires
        l < old(doc)@.len(),
    ensures
        final(doc)@ == old(doc)@.update(l as int, line@),
{
    let slot = &mut doc.lines[l];
    *slot = line;
    proof {
        assert(doc@ =~= old(doc)@.update(l as int, line@));
    }
}

/// Inserts a line at `l`, shifting the rest to the right.
fn insert_line(doc: &mut Document, l: usize, line: Line)
    requires
        l <= old(doc)@.len(),
    ensures
        final(doc)@ == old(doc)@.insert(l as int, line@),
{
    doc.lines.insert(l, line);
    proof {
        old(doc).lines@.insert_ensures(l as int, line);
        old(doc)@.insert_ensures(l as int, line@);
        assert(doc@ =~= old(doc)@.insert(l as int, line@));
    }
}

/// Removes the line at `l`, shifting the rest to the left.
fn remove_line(doc: &mut Document, l: usize)
    requires
        l < old(doc)@.len(),
    ensures
        final(doc)@ == old(doc)@.remove(l as int),
{
    doc.lines.remove(l);
    proof {
        old(doc).lines@.remove_ensures(l as int);
        old(doc)@.remove_ensures(l as int);
        assert(doc@ =~= old(doc)@.remove(l as int));
    }
}

/// The shared shape of the apply/undo contracts: on success the document
/// holds the edited lines and stays well-formed; on failure it is untouched.
pub open spec fn step_post(
    res: Result<(Seq<LineV>, Option<int>), OpError>,
    doc0: Seq<LineV>,
    doc1: Seq<LineV>,
    r: Result<Option<usize>, OpError>,
) -> bool {
    &&& doc_wf(doc1)
    &&& match r {
        Ok(inv) => res == Ok::<(Seq<LineV>, Option<int>), OpError>((doc1, opt_int(inv))),
        Err(e) => doc1 == doc0 && res == Err::<(Seq<LineV>, Option<int>), OpError>(e),
    }
}

#[verifier::rlimit(100)]
fn apply_set_frame_count(doc: &mut Document, bulk_idx: usize, from: u32, to: u32) -> (r: Result<
    Option<usize>,
    OpError,
>)
    requires
        old(doc).wf(),
    ensures
        step_post(
            apply_spec(OpV::SetFrameCount { bulk_idx, from, to }, old(doc)@),
            old(doc)@,
            final(doc)@,
            r,
        ),
{
    let ghost d0 = doc@;
    let (l, s, b) = match locate_bulk(doc, bulk_idx) {
        Ok(x) => x,
        Err(e) => {
            return Err(e);
        },
    };
    if b.frame_count != from {
        return Err(OpError::ValueMismatch);
    }
    if from == to {
        return Ok(None);
    }
    if to == 0 {
        return Err(OpError::InvalidCount);
    }
    if to > from {
        let total = doc.total_frames_exec();
        if (to - from) as usize > usize::MAX - total {
            return Err(OpError::FrameCountOverflow);
        }
    }
    let nb = FrameBulk { frame_count: to, ..b };
    set_line(doc, l, Line::Bulk(nb));
    proof {
        lemma_prefix_frames_update(d0, l as int, LineV::Bulk(nb), d0.len() as int);
        assert forall|i: int| 0 <= i < doc@.len() implies line_wf(#[trigger] doc@[i]) by {
            if i != l {
                assert(doc@[i] == d0[i]);
            }
        }
    }
    let m: u32 = if from <= to {
        from
    } else {
        to
    };
    Ok(Some(s + m as usize))
}

fn apply_set_yaw(doc: &mut Document, bulk_idx: usize, from: u32, to: u32) -> (r: Result<
    Option<usize>,
    OpError,
>)
    requires
        old(doc).wf(),
    ensures
        step_post(
            apply_spec(OpV::SetYaw { bulk_idx, from, to }, old(doc)@),
            old(doc)@,
            final(doc)@,
            r,
        ),
{
    let ghost d0 = doc@;
    let (l, s, b) = match locate_bulk(doc, bulk_idx) {
        Ok(x) => x,
        Err(e) => {
            return Err(e);
        },
    };
    let y = match b.yaw {
        None => {
            return Err(OpError::MissingField);
        },
        Some(y) => y,
    };
    if y != from {
        return Err(OpError::ValueMismatch);
    }
    if from == to {
        return Ok(None);
    }
    let nb = FrameBulk { yaw: Some(to), ..b };
    set_line(doc, l, Line::Bulk(nb));
    proof {
        lemma_prefix_frames_update(d0, l as int, LineV::Bulk(nb), d0.len() as int);
        assert forall|i: int| 0 <= i < doc@.len() implies line_wf(#[trigger] doc@[i]) by {
            if i != l {
                assert(doc@[i] == d0[i]);
            }
        }
    }
    Ok(Some(s))
}

fn apply_set_left_right_count(doc: &mut Document, bulk_idx: usize, from: u32, to: u32) -> (r:
    Result<Option<usize>, OpError>)
    requires
        old(doc).wf(),
    ensures
        step_post(
            apply_spec(OpV::SetLeftRightCount { bulk_idx, from, to }, old(doc)@),
            old(doc)@,
            final(doc)@,
            r,
        ),
{
    let ghost d0 = doc@;
    let (l, s, b) = match locate_bulk(doc, bulk_idx) {
        Ok(x) => x,
        Err(e) => {
            return Err(e);
        },
    };
    let c = match b.left_right_count {
        None => {
            return Err(OpError::MissingField);
        },
        Some(c) => c,
    };
    if c != from {
        return Err(OpError::ValueMismatch);
    }
    if from == to {
        return Ok(None);
    }
    if to == 0 {
        return Err(OpError::InvalidCount);
    }
    let nb = FrameBulk { left_right_count: Some(to), ..b };
    set_line(doc, l, Line::Bulk(nb));
    proof {
        lemma_prefix_frames_update(d0, l as int, LineV::Bulk(nb), d0.len() as int);
        assert forall|i: int| 0 <= i < doc@.len() implies line_wf(#[trigger] doc@[i]) by {
            if i != l {
                assert(doc@[i] == d0[i]);
            }
        }
    }
    Ok(Some(s))
}

fn apply_toggle_key(doc: &mut Document, bulk_idx: usize, key: Key, to: bool) -> (r: Result<
    Option<usize>,
    OpError,
>)
    requires
        old(doc).wf(),
    ensures
        step_post(
            apply_spec(OpV::ToggleKey { bulk_idx, key, to }, old(doc)@),
            old(doc)@,
            final(doc)@,
            r,
        ),
{
    let ghost d0 = doc@;
    let (l, s, b) = match locate_bulk(doc, bulk_idx) {
        Ok(x) => x,
        Err(e) => {
            return Err(e);
        },
    };
    if key.value(&b) == to {
        return Err(OpError::ValueMismatch);
    }
    let mut nb = b;
    key.set_value(&mut nb, to);
    set_line(doc, l, Line::Bulk(nb));
    proof {
        assert(nb.frame_count == b.frame_count && nb.left_right_count == b.left_right_count);
        lemma_prefix_frames_update(d0, l as int, LineV::Bulk(nb), d0.len() as int);
        assert forall|i: int| 0 <= i < doc@.len() implies line_wf(#[trigger] doc@[i]) by {
            if i != l {
                assert(doc@[i] == d0[i]);
            }
        }
    }
    Ok(Some(s))
}

fn apply_delete(doc: &mut Document, line_idx: usize) -> (r: Result<Option<usize>, OpError>)
    requires
        old(doc).wf(),
    ensures
        step_post(
            apply_spec(OpV::Delete { line_idx, line: Seq::<char>::empty() }, old(doc)@),
            old(doc)@,
            final(doc)@,
            r,
        ),
{
    let ghost d0 = doc@;
    if line_idx >= doc.lines.len() {
        return Err(OpError::IndexOutOfRange);
    }
    let s = doc.start_frame_at(line_idx);
    remove_line(doc, line_idx);
    proof {
        lemma_prefix_frames_remove(d0, line_idx as int, d0.len() - 1);
        assert(prefix_frames(d0, line_idx as int + 1) == prefix_frames(d0, line_idx as int)
            + line_frames(d0[line_idx as int]));
        lemma_prefix_frames_mono(d0, line_idx as int + 1, d0.len() as int);
        d0.remove_ensures(line_idx as int);
        assert forall|i: int| 0 <= i < doc@.len() implies line_wf(#[trigger] doc@[i]) by {
            if i < line_idx {
                assert(doc@[i] == d0[i]);
            } else {
                assert(doc@[i] == d0[i + 1]);
            }
        }
    }
    Ok(Some(s))
}

fn apply_insert(doc: &mut Document, line_idx: usize, line: &str) -> (r: Result<
    Option<usize>,
    OpError,
>)
    requires
        old(doc).wf(),
    ensures
        step_post(
            apply_spec(OpV::Insert { line_idx, line: line@ }, old(doc)@),
            old(doc)@,
            final(doc)@,
            r,
        ),
{
    let ghost d0 = doc@;
    let l2 = match parse_line(line) {
        None => {
            return Err(OpError::LineUnparseable);
        },
        Some(l2) => l2,
    };
    if line_idx > doc.lines.len() {
        return Err(OpError::IndexOutOfRange);
    }
    let cf = line_frame_count(&l2);
    let total = doc.total_frames_exec();
    if cf as usize > usize::MAX - total {
        return Err(OpError::FrameCountOverflow);
    }
    let s = doc.start_frame_at(line_idx);
    let ghost lv = l2@;
    insert_line(doc, line_idx, l2);
    proof {
        lemma_prefix_frames_insert(d0, line_idx as int, lv, d0.len() as int + 1);
        d0.insert_ensures(line_idx as int, lv);
        assert forall|i: int| 0 <= i < doc@.len() implies line_wf(#[trigger] doc@[i]) by {
            if i < line_idx {
                assert(doc@[i] == d0[i]);
            } else if i > line_idx {
                assert(doc@[i] == d0[i - 1]);
            }
        }
    }
    Ok(Some(s))
}

fn apply_replace(doc: &mut Document, line_idx: usize, to: &str) -> (r: Result<
    Option<usize>,
    OpError,
>)
    requires
        old(doc).wf(),
    ensures
        step_post(
            apply_spec(
                OpV::Replace { line_idx, from: Seq::<char>::empty(), to: to@ },
                old(doc)@,
            ),
            old(doc)@,
            final(doc)@,
            r,
        ),
{
    let ghost d0 = doc@;
    let l2 = match parse_line(to) {
        None => {
            return Err(OpError::LineUnparseable);
        },
        Some(l2) => l2,
    };
    if line_idx >= doc.lines.len() {
        return Err(OpError::IndexOutOfRange);
    }
    let cf = line_frame_count(&l2);
    let old_cf = line_frame_count(&doc.lines[line_idx]);
    let total = doc.total_frames_exec();
    proof {
        assert(prefix_frames(d0, line_idx as int + 1) == prefix_frames(d0, line_idx as int)
            + line_frames(d0[line_idx as int]));
        lemma_prefix_frames_mono(d0, 0, line_idx as int);
        lemma_prefix_frames_mono(d0, line_idx as int + 1, d0.len() as int);
    }
    if cf as usize > usize::MAX - (total - old_cf as usize) {
        return Err(OpError::FrameCountOverflow);
    }
    let s = doc.start_frame_at(line_idx);
    let ghost lv = l2@;
    set_line(doc, line_idx, l2);
    proof {
        lemma_prefix_frames_update(d0, line_idx as int, lv, d0.len() as int);
        assert forall|i: int| 0 <= i < doc@.len() implies line_wf(#[trigger] doc@[i]) by {
            if i != line_idx {
                assert(doc@[i] == d0[i]);
            }
        }
    }
    Ok(Some(s))
}

fn apply_split(doc: &mut Document, frame_idx: usize) -> (r: Result<Option<usize>, OpError>)
    requires
        old(doc).wf(),
    ensures
        step_post(
            apply_spec(OpV::Split { frame_idx }, old(doc)@),
            old(doc)@,
            final(doc)@,
            r,
        ),
{
    let ghost d0 = doc@;
    let (l, rep) = match doc.frame_owner_at(frame_idx) {
        None => {
            return Err(OpError::IndexOutOfRange);
        },
        Some(x) => x,
    };
    if rep == 0 {
        return Err(OpError::SplitPoint);
    }
    let b = read_bulk(&doc.lines[l]);
    let first = FrameBulk { frame_count: rep, ..b };
    let second = FrameBulk { frame_count: b.frame_count - rep, ..b };
    set_line(doc, l, Line::Bulk(first));
    let n: usize = doc.lines.len();
    proof {
        assert(l < n);
    }
    insert_line(doc, l + 1, Line::Bulk(second));
    proof {
        let d1 = d0.update(l as int, LineV::Bulk(first));
        lemma_prefix_frames_update(d0, l as int, LineV::Bulk(first), d0.len() as int);
        lemma_prefix_frames_insert(d1, l + 1, LineV::Bulk(second), d1.len() as int + 1);
        d1.insert_ensures(l + 1, LineV::Bulk(second));
        assert forall|i: int| 0 <= i < doc@.len() implies line_wf(#[trigger] doc@[i]) by {
            if i < l {
                assert(doc@[i] == d0[i]);
            } else if i > l + 1 {
                assert(doc@[i] == d1[i - 1]);
                assert(d1[i - 1] == d0[i - 1]);
            }
        }
    }
    Ok(None)
}

fn undo_split(doc: &mut Document, frame_idx: usize) -> (r: Result<Option<usize>, OpError>)
    requires
        old(doc).wf(),
    ensures
        step_post(
            undo_spec(OpV::Split { frame_idx }, old(doc)@),
            old(doc)@,
            final(doc)@,
            r,
        ),
{
    let ghost d0 = doc@;
    let (l, rep) = match doc.frame_owner_at(frame_idx) {
        None => {
            return Err(OpError::IndexOutOfRange);
        },
        Some(x) => x,
    };
    if rep != 0 {
        return Err(OpError::SplitPoint);
    }
    if l == 0 {
        return Err(OpError::SplitPoint);
    }
    let prev = match &doc.lines[l - 1] {
        Line::Bulk(b) => *b,
        Line::Other(_) => {
            return Err(OpError::SplitPoint);
        },
    };
    let cur = read_bulk(&doc.lines[l]);
    if prev.frame_count > u32::MAX - cur.frame_count {
        return Err(OpError::FrameCountOverflow);
    }
    let merged = FrameBulk { frame_count: cur.frame_count + prev.frame_count, ..cur };
    remove_line(doc, l - 1);
    set_line(doc, l - 1, Line::Bulk(merged));
    proof {
        let d1 = d0.remove(l - 1);
        lemma_prefix_frames_remove(d0, l - 1, d0.len() - 1);
        d0.remove_ensures(l - 1);
        lemma_prefix_frames_update(d1, l - 1, LineV::Bulk(merged), d1.len() as int);
        assert forall|i: int| 0 <= i < doc@.len() implies line_wf(#[trigger] doc@[i]) by {
            if i < l - 1 {
                assert(doc@[i] == d1[i] && d1[i] == d0[i]);
            } else if i > l - 1 {
                assert(doc@[i] == d1[i] && d1[i] == d0[i + 1]);
            }
        }
    }
    Ok(None)
}

/// The operation's stored pre-edit data matches the document: the text a
/// `Delete` or `Replace` carries parses back to the very line it is about to
/// remove or overwrite. Applying cannot check this — the stored text is not
/// read on the forward edit — so exact inversion is owed only when it holds;
/// every other operation records its pre-edit state in checked fields.
pub open spec fn op_records(op: OpV, doc: Seq<LineV>) -> bool {
    match op {
        OpV::Delete { line_idx, line } => parse_spec(line) == Some(doc[line_idx as int]),
        OpV::Replace { line_idx, from, .. } => parse_spec(from) == Some(doc[line_idx as int]),
        _ => true,
    }
}

/// Law of invertibility: for every operation `op` and well-formed document
/// `doc` on which `op` applies successfully and whose pre-edit state `op`
/// records faithfully, undoing `op` on the edited document succeeds and
/// returns a document equal to `doc`.
/// Law of invertibility: for every operation `op` and well-formed document
/// `doc` on which `op` applies successfully and whose pre-edit state `op`
/// records faithfully, undoing `op` on the edited document succeeds and
/// returns a document equal to `doc`.
pub proof fn lemma_apply_undo(op: OpV, doc: Seq<LineV>)
    requires
        doc_wf(doc),
        apply_spec(op, doc) is Ok,
        op_records(op, doc),
    ensures
        ({
            let d2 = apply_spec(op, doc)->Ok_0.0;
            &&& undo_spec(op, d2) is Ok
            &&& undo_spec(op, d2)->Ok_0.0 == doc
        }),
{
    match op {
        OpV::SetFrameCount { bulk_idx, from, to } => {
            lemma_undo_set_frame_count(op, doc, bulk_idx, from, to);
        },
        OpV::SetYaw { bulk_idx, from, to } => {
            lemma_undo_set_yaw(op, doc, bulk_idx, from, to);
        },
        OpV::SetLeftRightCount { bulk_idx, from, to } => {
            lemma_undo_set_left_right(op, doc, bulk_idx, from, to);
        },
        OpV::ToggleKey { bulk_idx, key, to } => {
            lemma_undo_toggle_key(op, doc, bulk_idx, key, to);
        },
        OpV::Delete { line_idx, line } => {
            lemma_undo_delete(op, doc, line_idx);
        },
        OpV::Insert { line_idx, line } => {
            lemma_undo_insert(op, doc, line_idx, line);
        },
        OpV::Replace { line_idx, from, to } => {
            lemma_undo_replace(op, doc, line_idx, from, to);
        },
        OpV::Split { frame_idx } => {
            lemma_split_undo(frame_idx, doc);
        },
    }
}

#[verifier::rlimit(100)]
#[verifier::spinoff_prover]
proof fn lemma_undo_set_frame_count(op: OpV, doc: Seq<LineV>, bulk_idx: usize, from: u32, to: u32)
    requires
        doc_wf(doc),
        op == (OpV::SetFrameCount { bulk_idx, from, to }),
        apply_spec(op, doc) is Ok,
    ensures
        ({
            let d2 = apply_spec(op, doc)->Ok_0.0;
            &&& undo_spec(op, d2) is Ok
            &&& undo_spec(op, d2)->Ok_0.0 == doc
        }),
{
    let d2 = apply_spec(op, doc)->Ok_0.0;
    let l = bulk_line_idx(doc, bulk_idx as int);
    lemma_bulk_line_idx_bounds(doc, bulk_idx as int);
    let b = doc[l]->Bulk_0;
    if from != to {
        let nb = FrameBulk { frame_count: to, ..b };
        lemma_bulk_idx_update_bulk(doc, l, LineV::Bulk(nb), 0, bulk_idx as int);
        lemma_prefix_frames_update(doc, l, LineV::Bulk(nb), doc.len() as int);
        crate::script::lemma_prefix_frames_agree(d2, doc, l);
        assert(d2.update(l, LineV::Bulk(FrameBulk { frame_count: from, ..nb })) =~= doc);
    }
}

#[verifier::rlimit(100)]
#[verifier::spinoff_prover]
proof fn lemma_undo_set_yaw(op: OpV, doc: Seq<LineV>, bulk_idx: usize, from: u32, to: u32)
    requires
        doc_wf(doc),
        op == (OpV::SetYaw { bulk_idx, from, to }),
        apply_spec(op, doc) is Ok,
    ensures
        ({
            let d2 = apply_spec(op, doc)->Ok_0.0;
            &&& undo_spec(op, d2) is Ok
            &&& undo_spec(op, d2)->Ok_0.0 == doc
        }),
{
    let d2 = apply_spec(op, doc)->Ok_0.0;
    let l = bulk_line_idx(doc, bulk_idx as int);
    lemma_bulk_line_idx_bounds(doc, bulk_idx as int);
    let b = doc[l]->Bulk_0;
    if from != to {
        let nb = FrameBulk { yaw: Some(to), ..b };
        lemma_bulk_idx_update_bulk(doc, l, LineV::Bulk(nb), 0, bulk_idx as int);
        lemma_prefix_frames_update(doc, l, LineV::Bulk(nb), doc.len() as int);
        assert(d2.update(l, LineV::Bulk(FrameBulk { yaw: Some(from), ..nb })) =~= doc);
    }
}

#[verifier::rlimit(100)]
#[verifier::spinoff_prover]
proof fn lemma_undo_set_left_right(op: OpV, doc: Seq<LineV>, bulk_idx: usize, from: u32, to: u32)
    requires
        doc_wf(doc),
        op == (OpV::SetLeftRightCount { bulk_idx, from, to }),
        apply_spec(op, doc) is Ok,
    ensures
        ({
            let d2 = apply_spec(op, doc)->Ok_0.0;
            &&& undo_spec(op, d2) is Ok
            &&& undo_spec(op, d2)->Ok_0.0 == doc
        }),
{
    let d2 = apply_spec(op, doc)->Ok_0.0;
    let l = bulk_line_idx(doc, bulk_idx as int);
    lemma_bulk_line_idx_bounds(doc, bulk_idx as int);
    let b = doc[l]->Bulk_0;
    if from != to {
        let nb = FrameBulk { left_right_count: Some(to), ..b };
        lemma_bulk_idx_update_bulk(doc, l, LineV::Bulk(nb), 0, bulk_idx as int);
        lemma_prefix_frames_update(doc, l, LineV::Bulk(nb), doc.len() as int);
        assert(d2.update(l, LineV::Bulk(FrameBulk { left_right_count: Some(from), ..nb }))
            =~= doc);
    }
}

#[verifier::rlimit(100)]
#[verifier::spinoff_prover]
proof fn lemma_undo_toggle_key(op: OpV, doc: Seq<LineV>, bulk_idx: usize, key: Key, to: bool)
    requires
        doc_wf(doc),
        op == (OpV::ToggleKey { bulk_idx, key, to }),
        apply_spec(op, doc) is Ok,
    ensures
        ({
            let d2 = apply_spec(op, doc)->Ok_0.0;
            &&& undo_spec(op, d2) is Ok
            &&& undo_spec(op, d2)->Ok_0.0 == doc
        }),
{
    let d2 = apply_spec(op, doc)->Ok_0.0;
    let l = bulk_line_idx(doc, bulk_idx as int);
    lemma_bulk_line_idx_bounds(doc, bulk_idx as int);
    let b = doc[l]->Bulk_0;
    let nb = b.spec_with_key(key, to);
    lemma_bulk_idx_update_bulk(doc, l, LineV::Bulk(nb), 0, bulk_idx as int);
    lemma_prefix_frames_update(doc, l, LineV::Bulk(nb), doc.len() as int);
    assert(nb.spec_with_key(key, !to) == b);
    assert(d2.update(l, LineV::Bulk(nb.spec_with_key(key, !to))) =~= doc);
}

#[verifier::rlimit(100)]
#[verifier::spinoff_prover]
proof fn lemma_undo_delete(op: OpV, doc: Seq<LineV>, line_idx: usize)
    requires
        doc_wf(doc),
        op is Delete && op->Delete_line_idx == line_idx,
        apply_spec(op, doc) is Ok,
        op_records(op, doc),
    ensures
        ({
            let d2 = apply_spec(op, doc)->Ok_0.0;
            &&& undo_spec(op, d2) is Ok
            &&& undo_spec(op, d2)->Ok_0.0 == doc
        }),
{
    let d2 = apply_spec(op, doc)->Ok_0.0;
    let li = line_idx as int;
    lemma_prefix_frames_remove(doc, li, doc.len() - 1);
    doc.remove_ensures(li);
    assert(prefix_frames(doc, li + 1) == prefix_frames(doc, li) + line_frames(doc[li]));
    lemma_prefix_frames_mono(doc, li + 1, doc.len() as int);
    lemma_prefix_frames_mono(doc, 0, li);
    d2.insert_ensures(li, doc[li]);
    assert(d2.insert(li, doc[li]) =~= doc);
}

#[verifier::rlimit(100)]
#[verifier::spinoff_prover]
proof fn lemma_undo_insert(op: OpV, doc: Seq<LineV>, line_idx: usize, line: Seq<char>)
    requires
        doc_wf(doc),
        op == (OpV::Insert { line_idx, line }),
        apply_spec(op, doc) is Ok,
    ensures
        ({
            let d2 = apply_spec(op, doc)->Ok_0.0;
            &&& undo_spec(op, d2) is Ok
            &&& undo_spec(op, d2)->Ok_0.0 == doc
        }),
{
    let d2 = apply_spec(op, doc)->Ok_0.0;
    let li = line_idx as int;
    let l2 = parse_spec(line)->Some_0;
    doc.insert_ensures(li, l2);
    d2.remove_ensures(li);
    assert(d2.remove(li) =~= doc);
}

#[verifier::rlimit(100)]
#[verifier::spinoff_prover]
proof fn lemma_undo_replace(op: OpV, doc: Seq<LineV>, line_idx: usize, from: Seq<char>, to: Seq<char>)
    requires
        doc_wf(doc),
        op == (OpV::Replace { line_idx, from, to }),
        apply_spec(op, doc) is Ok,
        op_records(op, doc),
    ensures
        ({
            let d2 = apply_spec(op, doc)->Ok_0.0;
            &&& undo_spec(op, d2) is Ok
            &&& undo_spec(op, d2)->Ok_0.0 == doc
        }),
{
    let d2 = apply_spec(op, doc)->Ok_0.0;
    let li = line_idx as int;
    let l2 = parse_spec(to)->Some_0;
    lemma_prefix_frames_update(doc, li, l2, doc.len() as int);
    assert(d2.update(li, doc[li]) =~= doc);
}

/// Law of split/merge exactness: a successful split re-partitions the
/// unchanged frame sequence, so undoing it restores the document exactly and
/// neither direction invalidates any frame.
pub proof fn lemma_split_merge_exact(frame_idx: usize, doc: Seq<LineV>)
    requires
        doc_wf(doc),
        apply_spec(OpV::Split { frame_idx }, doc) is Ok,
    ensures
        ({
            let (d2, inv) = apply_spec(OpV::Split { frame_idx }, doc)->Ok_0;
            &&& inv is None
            &&& undo_spec(OpV::Split { frame_idx }, d2) == Ok::<_, OpError>(
                (doc, None::<int>),
            )
        }),
{
    lemma_split_undo(frame_idx, doc);
}

#[verifier::rlimit(100)]
#[verifier::spinoff_prover]
proof fn lemma_split_undo(frame_idx: usize, doc: Seq<LineV>)
    requires
        doc_wf(doc),
        apply_spec(OpV::Split { frame_idx }, doc) is Ok,
    ensures
        ({
            let d2 = apply_spec(OpV::Split { frame_idx }, doc)->Ok_0.0;
            undo_spec(OpV::Split { frame_idx }, d2) == Ok::<_, OpError>((doc, None::<int>))
        }),
{
    let fi = frame_idx as int;
    let l = frame_owner_idx(doc, fi);
    lemma_frame_owner(doc, fi);
    let b = doc[l]->Bulk_0;
    let rep = frame_repeat(doc, fi);
    let first = FrameBulk { frame_count: rep as u32, ..b };
    let second = FrameBulk { frame_count: (b.frame_count - rep) as u32, ..b };
    let d1 = doc.update(l, LineV::Bulk(first));
    let d2 = d1.insert(l + 1, LineV::Bulk(second));
    lemma_prefix_frames_update(doc, l, LineV::Bulk(first), doc.len() as int);
    d1.insert_ensures(l + 1, LineV::Bulk(second));
    lemma_prefix_frames_insert(d1, l + 1, LineV::Bulk(second), l + 1);
    crate::script::lemma_prefix_frames_agree(d1, doc, l);
    assert(prefix_frames(d1, l + 1) == prefix_frames(d1, l) + line_frames(d1[l]));
    assert(prefix_frames(d2, l + 1) == prefix_frames(doc, l) + rep);
    lemma_frame_owner_unique(d2, fi, l + 1);
    assert(frame_repeat(d2, fi) == 0);
    let merged = FrameBulk { frame_count: (second.frame_count + first.frame_count) as u32, ..second };
    assert(merged == b);
    let d3 = d2.remove(l);
    d2.remove_ensures(l);
    assert(d3.update(l, LineV::Bulk(merged)) =~= doc);
}

impl Operation {
    /// Applies the operation to the document.
    ///
    /// On success the document holds the edit and the result reports the
    /// index of the first invalidated frame, `None` when no frame's content
    /// changed. On failure nothing was written and the error says which
    /// precondition the document violated.
    pub fn apply(&self, doc: &mut Document) -> (r: Result<Option<usize>, OpError>)
        requires
            old(doc).wf(),
        ensures
            final(doc).wf(),
            step_post(apply_spec(self@, old(doc)@), old(doc)@, final(doc)@, r),
    {
        match self {
            Operation::SetFrameCount { bulk_idx, from, to } => (apply_set_frame_count(
                doc,
                *bulk_idx,
                *from,
                *to,
            )),
            Operation::SetYaw { bulk_idx, from, to } => apply_set_yaw(doc, *bulk_idx, *from, *to),
            Operation::Delete { line_idx, .. } => apply_delete(doc, *line_idx),
            Operation::Split { frame_idx } => apply_split(doc, *frame_idx),
            Operation::Replace { line_idx, to, .. } => (apply_replace(
                doc,
                *line_idx,
                to.as_str(),
            )),
            Operation::ToggleKey { bulk_idx, key, to } => (apply_toggle_key(
                doc,
                *bulk_idx,
                *key,
                *to,
            )),
            Operation::Insert { line_idx, line } => apply_insert(doc, *line_idx, line.as_str()),
            Operation::SetLeftRightCount { bulk_idx, from, to } => (apply_set_left_right_count(
                doc,
                *bulk_idx,
                *from,
                *to,
            )),
        }
    }

    /// Undoes the operation on the document: the exact inverse of `apply`,
    /// with the same failure discipline.
    pub fn undo(&self, doc: &mut Document) -> (r: Result<Option<usize>, OpError>)
        requires
            old(doc).wf(),
        ensures
            final(doc).wf(),
            step_post(undo_spec(self@, old(doc)@), old(doc)@, final(doc)@, r),
    {
        match self {
            Operation::SetFrameCount { bulk_idx, from, to } => (apply_set_frame_count(
                doc,
                *bulk_idx,
                *to,
                *from,
            )),
            Operation::SetYaw { bulk_idx, from, to } => apply_set_yaw(doc, *bulk_idx, *to, *from),
            Operation::Delete { line_idx, line } => apply_insert(doc, *line_idx, line.as_str()),
            Operation::Split { frame_idx } => undo_split(doc, *frame_idx),
            Operation::Replace { line_idx, from, .. } => (apply_replace(
                doc,
                *line_idx,
                from.as_str(),
            )),
            Operation::ToggleKey { bulk_idx, key, to } => (apply_toggle_key(
                doc,
                *bulk_idx,
                *key,
                !*to,
            )),
            Operation::Insert { line_idx, .. } => apply_delete(doc, *line_idx),
            Operation::SetLeftRightCount { bulk_idx, from, to } => (apply_set_left_right_count(
                doc,
                *bulk_idx,
                *to,
                *from,
            )),
        }
    }
}

} // verus!
