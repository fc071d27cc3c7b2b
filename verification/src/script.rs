//! The script document: an ordered sequence of lines, most of them frame
//! bulks describing repeated frames of input.

use vstd::prelude::*;

verus! {

/// A key flag of a frame bulk: six movement keys and six action keys.
#[derive(Debug, Clone, Copy, PartialEq, Eq, Structural)]
pub enum Key {
    Forward,
    Left,
    Right,
    Back,
    Up,
    Down,
    Jump,
    Duck,
    Use,
    Attack1,
    Attack2,
    Reload,
}

/// A frame bulk: `frame_count` repeated frames sharing one set of inputs.
///
/// The yaw angle is kept as the bit pattern of its 32-bit floating-point
/// value; the engine core only ever stores, compares and swaps yaw values,
/// so the bits carry everything it reads.
#[derive(Debug, Clone, Copy, PartialEq, Eq)]
pub struct FrameBulk {
    /// Number of frames this bulk expands to. Always at least 1.
    pub frame_count: u32,
    /// Bit pattern of the yaw angle, for bulks whose movement mode has one.
    pub yaw: Option<u32>,
    /// Left-right strafing count, for bulks in that mode. At least 1 when present.
    pub left_right_count: Option<u32>,
    pub forward: bool,
    pub left: bool,
    pub right: bool,
    pub back: bool,
    pub up: bool,
    pub down: bool,
    pub jump: bool,
    pub duck: bool,
    pub use_: bool,
    pub attack_1: bool,
    pub attack_2: bool,
    pub reload: bool,
}

/// One line of the document: a frame bulk, or any other directive kept
/// verbatim as its text so that it round-trips unchanged.
#[derive(Debug, Clone, PartialEq)]
pub enum Line {
    Bulk(FrameBulk),
    Other(String),
}

/// The mathematical value of a [`Line`]: the text of an opaque line is a
/// sequence of characters.
pub enum LineV {
    Bulk(FrameBulk),
    Other(Seq<char>),
}

impl View for Line {
    type V = LineV;

    open spec fn view(&self) -> LineV {
        match self {
            Line::Bulk(b) => LineV::Bulk(*b),
            Line::Other(s) => LineV::Other(s@),
        }
    }
}

impl DeepView for Line {
    type V = LineV;

    open spec fn deep_view(&self) -> LineV {
        self.view()
    }
}

impl FrameBulk {
    /// Field invariant of a bulk: counts are positive.
    pub open spec fn wf(self) -> bool {
        &&& self.frame_count >= 1
        &&& match self.left_right_count {
            Some(c) => c >= 1,
            None => true,
        }
    }

    /// The value of the given key flag.
    pub open spec fn spec_key(self, key: Key) -> bool {
        match key {
            Key::Forward => self.forward,
            Key::Left => self.left,
            Key::Right => self.right,
            Key::Back => self.back,
            Key::Up => self.up,
            Key::Down => self.down,
            Key::Jump => self.jump,
            Key::Duck => self.duck,
            Key::Use => self.use_,
            Key::Attack1 => self.attack_1,
            Key::Attack2 => self.attack_2,
            Key::Reload => self.reload,
        }
    }

    /// The same bulk with the given key flag set to `to`.
    pub open spec fn spec_with_key(self, key: Key, to: bool) -> FrameBulk {
        match key {
            Key::Forward => FrameBulk { forward: to, ..self },
            Key::Left => FrameBulk { left: to, ..self },
            Key::Right => FrameBulk { right: to, ..self },
            Key::Back => FrameBulk { back: to, ..self },
            Key::Up => FrameBulk { up: to, ..self },
            Key::Down => FrameBulk { down: to, ..self },
            Key::Jump => FrameBulk { jump: to, ..self },
            Key::Duck => FrameBulk { duck: to, ..self },
            Key::Use => FrameBulk { use_: to, ..self },
            Key::Attack1 => FrameBulk { attack_1: to, ..self },
            Key::Attack2 => FrameBulk { attack_2: to, ..self },
            Key::Reload => FrameBulk { reload: to, ..self },
        }
    }
}

impl Key {
    /// Reads the key's flag from a bulk.
    pub fn value(self, bulk: &FrameBulk) -> (r: bool)
        ensures
            r == bulk.spec_key(self),
    {
        match self {
            Key::Forward => bulk.forward,
            Key::Left => bulk.left,
            Key::Right => bulk.right,
            Key::Back => bulk.back,
            Key::Up => bulk.up,
            Key::Down => bulk.down,
            Key::Jump => bulk.jump,
            Key::Duck => bulk.duck,
            Key::Use => bulk.use_,
            Key::Attack1 => bulk.attack_1,
            Key::Attack2 => bulk.attack_2,
            Key::Reload => bulk.reload,
        }
    }

    /// Sets the key's flag in a bulk, leaving every other field unchanged.
    #[verifier::rlimit(60)]
    pub fn set_value(self, bulk: &mut FrameBulk, to: bool)
        ensures
            *final(bulk) == old(bulk).spec_with_key(self, to),
    {
        match self {
            Key::Forward => bulk.forward = to,
            Key::Left => bulk.left = to,
            Key::Right => bulk.right = to,
            Key::Back => bulk.back = to,
            Key::Up => bulk.up = to,
            Key::Down => bulk.down = to,
            Key::Jump => bulk.jump = to,
            Key::Duck => bulk.duck = to,
            Key::Use => bulk.use_ = to,
            Key::Attack1 => bulk.attack_1 = to,
            Key::Attack2 => bulk.attack_2 = to,
            Key::Reload => bulk.reload = to,
        }
    }
}

/// How many frames one line contributes to the expanded timeline.
pub open spec fn line_frames(l: LineV) -> int {
    match l {
        LineV::Bulk(b) => b.frame_count as int,
        LineV::Other(_) => 0,
    }
}

/// Field invariant of one line.
pub open spec fn line_wf(l: LineV) -> bool {
    match l {
        LineV::Bulk(b) => b.wf(),
        LineV::Other(_) => true,
    }
}

/// Total frames contributed by the first `n` lines: the absolute frame index
/// at which line `n` begins.
pub open spec fn prefix_frames(lines: Seq<LineV>, n: int) -> int
    decreases n,
{
    if n <= 0 {
        0
    } else {
        prefix_frames(lines, n - 1) + line_frames(lines[n - 1])
    }
}

/// Length of the whole expanded timeline.
pub open spec fn total_frames(lines: Seq<LineV>) -> int {
    prefix_frames(lines, lines.len() as int)
}

/// Well-formedness of a document's lines: every line keeps its field
/// invariant, and the expanded timeline is addressable by `usize`.
pub open spec fn doc_wf(lines: Seq<LineV>) -> bool {
    &&& forall|i: int| 0 <= i < lines.len() ==> line_wf(#[trigger] lines[i])
    &&& total_frames(lines) <= usize::MAX
}

/// The script being edited: an ordered sequence of lines. It is mutated
/// exclusively through operations.
#[derive(Debug, Clone, PartialEq)]
pub struct Document {
    pub lines: Vec<Line>,
}

impl View for Document {
    type V = Seq<LineV>;

    open spec fn view(&self) -> Seq<LineV> {
        self.lines.deep_view()
    }
}

impl Document {
    pub open spec fn wf(self) -> bool {
        doc_wf(self@)
    }

    /// Creates an empty document.
    pub fn new() -> (r: Document)
        ensures
            r@ == Seq::<LineV>::empty(),
            r.wf(),
    {
        let d = Document { lines: Vec::new() };
        proof {
            assert(d@ =~= Seq::<LineV>::empty());
        }
        d
    }

    /// Number of lines.
    pub fn len(&self) -> (r: usize)
        ensures
            r == self@.len(),
    {
        self.lines.len()
    }
}

/// Frame contributions are never negative, so prefix sums grow with `n`.
pub proof fn lemma_prefix_frames_mono(lines: Seq<LineV>, m: int, n: int)
    requires
        0 <= m <= n <= lines.len(),
    ensures
        prefix_frames(lines, m) <= prefix_frames(lines, n),
    decreases n,
{
    if m < n {
        lemma_prefix_frames_mono(lines, m, n - 1);
    }
}

/// How replacing one line shifts the prefix sums.
pub proof fn lemma_prefix_frames_update(lines: Seq<LineV>, i: int, l2: LineV, n: int)
    requires
        0 <= i < lines.len(),
        0 <= n <= lines.len(),
    ensures
        n <= i ==> prefix_frames(lines.update(i, l2), n) == prefix_frames(lines, n),
        n > i ==> prefix_frames(lines.update(i, l2), n) == prefix_frames(lines, n)
            - line_frames(lines[i]) + line_frames(l2),
    decreases n,
{
    if n > 0 {
        lemma_prefix_frames_update(lines, i, l2, n - 1);
    }
}

/// How inserting one line shifts the prefix sums.
pub proof fn lemma_prefix_frames_insert(lines: Seq<LineV>, i: int, l2: LineV, n: int)
    requires
        0 <= i <= lines.len(),
        0 <= n <= lines.len() + 1,
    ensures
        n <= i ==> prefix_frames(lines.insert(i, l2), n) == prefix_frames(lines, n),
        n > i ==> prefix_frames(lines.insert(i, l2), n) == prefix_frames(lines, n - 1)
            + line_frames(l2),
    decreases n,
{
    lines.insert_ensures(i, l2);
    if n > 0 {
        lemma_prefix_frames_insert(lines, i, l2, n - 1);
    }
}

/// How removing one line shifts the prefix sums.
pub proof fn lemma_prefix_frames_remove(lines: Seq<LineV>, i: int, n: int)
    requires
        0 <= i < lines.len(),
        0 <= n <= lines.len() - 1,
    ensures
        n <= i ==> prefix_frames(lines.remove(i), n) == prefix_frames(lines, n),
        n > i ==> prefix_frames(lines.remove(i), n) == prefix_frames(lines, n + 1)
            - line_frames(lines[i]),
    decreases n,
{
    lines.remove_ensures(i);
    if n > 0 {
        lemma_prefix_frames_remove(lines, i, n - 1);
        assert(prefix_frames(lines.remove(i), n)
            == prefix_frames(lines.remove(i), n - 1) + line_frames(lines.remove(i)[n - 1]));
        if n - 1 >= i {
            assert(lines.remove(i)[n - 1] == lines[n]);
            assert(prefix_frames(lines, n + 1) == prefix_frames(lines, n) + line_frames(lines[n]));
            assert(prefix_frames(lines, n) == prefix_frames(lines, n - 1) + line_frames(lines[n - 1]));
        }
    }
}

/// Two line sequences that agree on their first `n` lines have the same
/// prefix sums up to `n`.
pub proof fn lemma_prefix_frames_agree(a: Seq<LineV>, b: Seq<LineV>, n: int)
    requires
        0 <= n <= a.len(),
        n <= b.len(),
        forall|i: int| 0 <= i < n ==> a[i] == b[i],
    ensures
        prefix_frames(a, n) == prefix_frames(b, n),
    decreases n,
{
    if n > 0 {
        lemma_prefix_frames_agree(a, b, n - 1);
    }
}

} // verus!
