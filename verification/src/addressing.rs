//! Frame addressing: pure queries over a document computing where each line
//! starts in the expanded per-frame timeline, and the inverse mapping from an
//! absolute frame index back to the owning line and in-bulk offset.

use vstd::prelude::*;

use crate::script::{line_frames, prefix_frames, total_frames, Document, LineV};
use crate::script::lemma_prefix_frames_mono;

verus! {

/// Line index of the `k`-th frame-bulk line at or after line `i`, or the
/// document length when there is no such bulk.
pub open spec fn bulk_line_idx_from(lines: Seq<LineV>, i: int, k: int) -> int
    decreases lines.len() - i when 0 <= i <= lines.len()
{
    if i < 0 || i >= lines.len() {
        lines.len() as int
    } else if lines[i] is Bulk && k == 0 {
        i
    } else if lines[i] is Bulk {
        bulk_line_idx_from(lines, i + 1, k - 1)
    } else {
        bulk_line_idx_from(lines, i + 1, k)
    }
}

/// Line index of bulk number `k` (0-based among bulk lines only), or the
/// document length when the document has no such bulk.
pub open spec fn bulk_line_idx(lines: Seq<LineV>, k: int) -> int {
    bulk_line_idx_from(lines, 0, k)
}

/// Line index owning relative frame `rem`, scanning from line `i`, or the
/// document length when `rem` lies past the end of the timeline.
pub open spec fn owner_from(lines: Seq<LineV>, i: int, rem: int) -> int
    decreases lines.len() - i when 0 <= i <= lines.len()
{
    if i < 0 || i >= lines.len() {
        lines.len() as int
    } else if lines[i] is Bulk && rem < line_frames(lines[i]) {
        i
    } else {
        owner_from(lines, i + 1, rem - line_frames(lines[i]))
    }
}

/// Line index of the bulk owning absolute frame `frame_idx`, or the document
/// length when `frame_idx` lies past the end of the timeline. A frame index
/// at a boundary between two bulks belongs to the later one.
pub open spec fn frame_owner_idx(lines: Seq<LineV>, frame_idx: int) -> int {
    owner_from(lines, 0, frame_idx)
}

/// In-bulk offset of absolute frame `frame_idx` within its owning bulk.
pub open spec fn frame_repeat(lines: Seq<LineV>, frame_idx: int) -> int {
    frame_idx - prefix_frames(lines, frame_owner_idx(lines, frame_idx))
}

/// Position and bounds of the owning line found by [`owner_from`].
pub proof fn lemma_owner_from_props(lines: Seq<LineV>, i: int, rem: int)
    requires
        0 <= i <= lines.len(),
        rem >= 0,
    ensures
        ({
            let l = owner_from(lines, i, rem);
            &&& i <= l <= lines.len()
            &&& l < lines.len() ==> lines[l] is Bulk
                && prefix_frames(lines, l) - prefix_frames(lines, i) <= rem
                && rem < prefix_frames(lines, l) - prefix_frames(lines, i) + line_frames(lines[l])
            &&& l == lines.len() ==> rem >= total_frames(lines) - prefix_frames(lines, i)
        }),
    decreases lines.len() - i,
{
    if i < lines.len() {
        let cf = line_frames(lines[i]);
        if !(lines[i] is Bulk && rem < cf) {
            assert(cf >= 0);
            assert(lines[i] is Bulk ==> rem >= cf);
            lemma_owner_from_props(lines, i + 1, rem - cf);
            assert(prefix_frames(lines, i + 1) == prefix_frames(lines, i) + cf);
        }
    }
}

/// Bounds of the owning line of an absolute frame index.
pub proof fn lemma_frame_owner(lines: Seq<LineV>, frame_idx: int)
    requires
        frame_idx >= 0,
    ensures
        ({
            let l = frame_owner_idx(lines, frame_idx);
            &&& 0 <= l <= lines.len()
            &&& l < lines.len() ==> lines[l] is Bulk
                && prefix_frames(lines, l) <= frame_idx
                && frame_idx < prefix_frames(lines, l) + line_frames(lines[l])
            &&& l == lines.len() ==> frame_idx >= total_frames(lines)
        }),
{
    lemma_owner_from_props(lines, 0, frame_idx);
}

/// The scan for a bulk ends at a bulk line or at the document's end.
pub proof fn lemma_bulk_idx_from_bounds(lines: Seq<LineV>, i: int, k: int)
    requires
        0 <= i <= lines.len(),
    ensures
        i <= bulk_line_idx_from(lines, i, k) <= lines.len(),
        bulk_line_idx_from(lines, i, k) < lines.len() ==> lines[bulk_line_idx_from(
            lines,
            i,
            k,
        )] is Bulk,
    decreases lines.len() - i,
{
    if i < lines.len() {
        if !(lines[i] is Bulk && k == 0) {
            if lines[i] is Bulk {
                lemma_bulk_idx_from_bounds(lines, i + 1, k - 1);
            } else {
                lemma_bulk_idx_from_bounds(lines, i + 1, k);
            }
        }
    }
}

/// Bounds of [`bulk_line_idx`].
pub proof fn lemma_bulk_line_idx_bounds(lines: Seq<LineV>, k: int)
    ensures
        0 <= bulk_line_idx(lines, k) <= lines.len(),
        bulk_line_idx(lines, k) < lines.len() ==> lines[bulk_line_idx(lines, k)] is Bulk,
{
    lemma_bulk_idx_from_bounds(lines, 0, k);
}

/// Replacing a bulk line by another bulk moves no bulk index.
pub proof fn lemma_bulk_idx_update_bulk(lines: Seq<LineV>, l: int, nl: LineV, i: int, k: int)
    requires
        0 <= l < lines.len(),
        lines[l] is Bulk <==> nl is Bulk,
        0 <= i <= lines.len(),
    ensures
        bulk_line_idx_from(lines.update(l, nl), i, k) == bulk_line_idx_from(lines, i, k),
    decreases lines.len() - i,
{
    if i < lines.len() {
        if !(lines[i] is Bulk && k == 0) {
            if lines[i] is Bulk {
                lemma_bulk_idx_update_bulk(lines, l, nl, i + 1, k - 1);
            } else {
                lemma_bulk_idx_update_bulk(lines, l, nl, i + 1, k);
            }
        }
    }
}

/// A frame index inside a bulk's window is owned by that bulk and no other:
/// the windows of successive bulks are disjoint.
pub proof fn lemma_frame_owner_unique(lines: Seq<LineV>, f: int, l: int)
    requires
        0 <= l < lines.len(),
        lines[l] is Bulk,
        prefix_frames(lines, l) <= f,
        f < prefix_frames(lines, l) + line_frames(lines[l]),
    ensures
        frame_owner_idx(lines, f) == l,
{
    lemma_owner_unique_from(lines, f, l, 0);
}

proof fn lemma_owner_unique_from(lines: Seq<LineV>, f: int, l: int, i: int)
    requires
        0 <= i <= l < lines.len(),
        lines[l] is Bulk,
        prefix_frames(lines, l) <= f,
        f < prefix_frames(lines, l) + line_frames(lines[l]),
    ensures
        owner_from(lines, i, f - prefix_frames(lines, i)) == l,
    decreases l - i,
{
    if i < l {
        assert(prefix_frames(lines, i + 1) == prefix_frames(lines, i) + line_frames(lines[i]));
        lemma_prefix_frames_mono(lines, i + 1, l);
        lemma_owner_unique_from(lines, f, l, i + 1);
    }
}

impl Document {
    /// Absolute frame index at which line `line_idx` begins: the prefix sum
    /// of the frame counts of all bulk lines before it.
    pub fn start_frame_at(&self, line_idx: usize) -> (r: usize)
        requires
            self.wf(),
            line_idx <= self@.len(),
        ensures
            r == prefix_frames(self@, line_idx as int),
    {
        let ghost lines = self@;
        let mut s: usize = 0;
        let mut i: usize = 0;
        while i < line_idx
            invariant
                self.wf(),
                lines == self@,
                i <= line_idx <= lines.len(),
                s == prefix_frames(lines, i as int),
            decreases line_idx - i,
        {
            proof {
                lemma_prefix_frames_mono(lines, i as int + 1, lines.len() as int);
            }
            match &self.lines[i] {
                crate::script::Line::Bulk(b) => {
                    s = s + (b.frame_count as usize);
                }
                crate::script::Line::Other(_) => {}
            }
            i = i + 1;
        }
        s
    }

    /// Line index and starting frame of bulk number `bulk_idx`, or `None`
    /// when the document has fewer bulks.
    pub fn bulk_at(&self, bulk_idx: usize) -> (r: Option<(usize, usize)>)
        requires
            self.wf(),
        ensures
            match r {
                Some((l, s)) => {
                    &&& l == bulk_line_idx(self@, bulk_idx as int)
                    &&& l < self@.len()
                    &&& self@[l as int] is Bulk
                    &&& s == prefix_frames(self@, l as int)
                },
                None => bulk_line_idx(self@, bulk_idx as int) == self@.len(),
            },
    {
        let ghost lines = self@;
        let mut s: usize = 0;
        let mut i: usize = 0;
        let mut k: usize = bulk_idx;
        while i < self.lines.len()
            invariant
                self.wf(),
                lines == self@,
                i <= lines.len(),
                k <= bulk_idx,
                s == prefix_frames(lines, i as int),
                bulk_line_idx(lines, bulk_idx as int) == bulk_line_idx_from(lines, i as int, k as int),
            decreases self.lines.len() - i,
        {
            proof {
                lemma_prefix_frames_mono(lines, i as int + 1, lines.len() as int);
            }
            match &self.lines[i] {
                crate::script::Line::Bulk(b) => {
                    if k == 0 {
                        return Some((i, s));
                    }
                    k = k - 1;
                    s = s + (b.frame_count as usize);
                }
                crate::script::Line::Other(_) => {}
            }
            i = i + 1;
        }
        None
    }

    /// Owning line index and in-bulk offset of absolute frame `frame_idx`,
    /// or `None` when `frame_idx` lies past the end of the timeline.
    pub fn frame_owner_at(&self, frame_idx: usize) -> (r: Option<(usize, u32)>)
        requires
            self.wf(),
        ensures
            match r {
                Some((l, rep)) => {
                    &&& l == frame_owner_idx(self@, frame_idx as int)
                    &&& l < self@.len()
                    &&& self@[l as int] is Bulk
                    &&& rep == frame_repeat(self@, frame_idx as int)
                    &&& prefix_frames(self@, l as int) + rep == frame_idx
                    &&& rep < line_frames(self@[l as int])
                },
                None => frame_owner_idx(self@, frame_idx as int) == self@.len(),
            },
    {
        let ghost lines = self@;
        let mut i: usize = 0;
        let mut rem: usize = frame_idx;
        while i < self.lines.len()
            invariant
                self.wf(),
                lines == self@,
                i <= lines.len(),
                rem == frame_idx - prefix_frames(lines, i as int),
                frame_idx >= prefix_frames(lines, i as int),
                frame_owner_idx(lines, frame_idx as int) == owner_from(lines, i as int, rem as int),
            decreases self.lines.len() - i,
        {
            match &self.lines[i] {
                crate::script::Line::Bulk(b) => {
                    if rem < b.frame_count as usize {
                        return Some((i, rem as u32));
                    }
                    rem = rem - (b.frame_count as usize);
                }
                crate::script::Line::Other(_) => {}
            }
            i = i + 1;
        }
        None
    }
}

} // verus!
