//! The external line parser.
//!
//! The textual form of a line is handled by an outside parser; this module
//! wraps it. What a given text parses to is a fixed function of the text
//! alone, named by [`parse_spec`]; the rest of the crate reasons about
//! parsing only through that name.

use vstd::prelude::*;

use crate::script::{FrameBulk, Line, LineV};
use crate::script::prefix_frames;

use hltas::types::AutoMovement::{SetYaw, Strafe};
use hltas::types::Line::FrameBulk as BulkLine;
use hltas::types::StrafeDir::{LeftRight, Line as AlongLine, RightLeft, Yaw};
use hltas::types::{ActionKeys, MovementKeys};

verus! {

/// The outside parser's movement-key flags: six public booleans, declared so
/// that verified code can read them.
#[verifier::external_type_specification]
pub struct ExMovementKeys(MovementKeys);

/// The outside parser's action-key flags, declared the same way.
#[verifier::external_type_specification]
pub struct ExActionKeys(ActionKeys);

/// What one parsed frame bulk gives the document: its frame count, yaw bit
/// pattern, left-right count, and the twelve key flags.
pub open spec fn bulk_of_parts(
    count: u32,
    yaw: Option<u32>,
    lr: Option<u32>,
    m: MovementKeys,
    a: ActionKeys,
) -> FrameBulk {
    FrameBulk {
        frame_count: count,
        yaw,
        left_right_count: lr,
        forward: m.forward,
        left: m.left,
        right: m.right,
        back: m.back,
        up: m.up,
        down: m.down,
        jump: a.jump,
        duck: a.duck,
        use_: a.use_,
        attack_1: a.attack_1,
        attack_2: a.attack_2,
        reload: a.reload,
    }
}

/// What the external parser makes of a line of text: `None` when the text is
/// not a valid line, the bulk's fields when it is a frame bulk, and the text
/// itself (kept verbatim) for every other directive.
pub uninterp spec fn parse_spec(text: Seq<char>) -> Option<LineV>;

/// Relies on `hltas::read::line`: parses one line of the frames section,
/// deterministically from the text alone. The outer `None` means the text is
/// no valid line; `Some(None)` a valid non-bulk line; `Some(Some(..))` a
/// frame bulk, whose frame count, yaw or left-right count (both live inside
/// `auto_actions.movement`) and key flags are handed back as plain parts.
#[verifier::external_body]
fn parse_line_raw(text: &str) -> (r: Option<
    Option<(u32, Option<u32>, Option<u32>, MovementKeys, ActionKeys)>,
>)
    ensures
        match r {
            None => parse_spec(text@) is None,
            Some(None) => parse_spec(text@) == Some(LineV::Other(text@)),
            Some(Some(t)) => parse_spec(text@) == Some(
                LineV::Bulk(bulk_of_parts(t.0, t.1, t.2, t.3, t.4)),
            ) && crate::script::line_wf(LineV::Bulk(bulk_of_parts(t.0, t.1, t.2, t.3, t.4))),
        },
{
    let l = match hltas::read::line(text) { Ok((_, l)) => l, Err(_) => return None };
    let b = match l { BulkLine(b) => b, _ => return Some(None) };
    let (y, lr) = match b.auto_actions.movement {
        Some(SetYaw(y)) => (Some(y.to_bits()), None),
        Some(Strafe(s)) => match s.dir {
            Yaw(y) | AlongLine { yaw: y } => (Some(y.to_bits()), None),
            LeftRight(c) | RightLeft(c) => (None, Some(c.get())),
            _ => (None, None),
        },
        _ => (None, None),
    };
    Some(Some((b.frame_count.get(), y, lr, b.movement_keys, b.action_keys)))
}

/// Parses one line of script text into a document line: the bulk's fields
/// for a frame bulk, the text kept verbatim for any other valid line, and
/// `None` for text that is no line at all.
pub fn parse_line(text: &str) -> (r: Option<Line>)
    ensures
        match r {
            Some(l) => parse_spec(text@) == Some(l@) && crate::script::line_wf(l@),
            None => parse_spec(text@) is None,
        },
{
    match parse_line_raw(text) {
        None => None,
        Some(None) => Some(Line::Other(text.to_owned())),
        Some(Some((count, yaw, lr, m, a))) => Some(
            Line::Bulk(
                FrameBulk {
                    frame_count: count,
                    yaw,
                    left_right_count: lr,
                    forward: m.forward,
                    left: m.left,
                    right: m.right,
                    back: m.back,
                    up: m.up,
                    down: m.down,
                    jump: a.jump,
                    duck: a.duck,
                    use_: a.use_,
                    attack_1: a.attack_1,
                    attack_2: a.attack_2,
                    reload: a.reload,
                },
            ),
        ),
    }
}

/// Whether every line of a script parses.
pub open spec fn all_parse(texts: Seq<Seq<char>>) -> bool {
    forall|i: int| 0 <= i < texts.len() ==> (#[trigger] parse_spec(texts[i])) is Some
}

/// The document a script's lines parse to, meaningful when they all parse.
pub open spec fn parsed_doc(texts: Seq<Seq<char>>) -> Seq<LineV> {
    Seq::new(texts.len(), |i: int| parse_spec(texts[i])->Some_0)
}

/// Builds a document from the textual lines of a script. Succeeds exactly
/// when every line parses and the expanded timeline fits the machine;
/// otherwise reports which of the two failed.
pub fn document_from_lines(texts: &Vec<String>) -> (r: Result<
    crate::script::Document,
    crate::operation::OpError,
>)
    ensures
        match r {
            Ok(d) => {
                &&& all_parse(texts.deep_view())
                &&& d@ == parsed_doc(texts.deep_view())
                &&& d.wf()
            },
            Err(e) => {
                &&& e == crate::operation::OpError::LineUnparseable ==> !all_parse(
                    texts.deep_view(),
                )
                &&& e == crate::operation::OpError::FrameCountOverflow ==> all_parse(
                    texts.deep_view(),
                ) && crate::script::total_frames(parsed_doc(texts.deep_view())) > usize::MAX
                &&& (e == crate::operation::OpError::LineUnparseable || e
                    == crate::operation::OpError::FrameCountOverflow)
            },
        },
{
    let ghost tv = texts.deep_view();
    let mut lines: Vec<Line> = Vec::new();
    let mut i: usize = 0;
    let n = texts.len();
    while i < n
        invariant
            n == texts@.len(),
            tv == texts.deep_view(),
            i <= n,
            lines@.len() == i,
            forall|j: int| 0 <= j < i ==> (#[trigger] parse_spec(tv[j])) is Some,
            forall|j: int| 0 <= j < i ==> (#[trigger] lines@[j])@ == parse_spec(tv[j])->Some_0,
            forall|j: int| 0 <= j < i ==> crate::script::line_wf((#[trigger] lines@[j])@),
        decreases n - i,
    {
        match parse_line(texts[i].as_str()) {
            None => {
                proof {
                    assert(tv[i as int] == texts@[i as int]@);
                    assert(!all_parse(tv));
                }
                return Err(crate::operation::OpError::LineUnparseable);
            },
            Some(l) => {
                lines.push(l);
            },
        }
        i = i + 1;
    }
    let doc = crate::script::Document { lines };
    proof {
        assert(doc@ =~= parsed_doc(tv));
    }
    let mut total: usize = 0;
    let mut k: usize = 0;
    while k < doc.lines.len()
        invariant
            tv == texts.deep_view(),
            all_parse(tv),
            doc@ == parsed_doc(tv),
            doc@.len() == doc.lines@.len(),
            forall|j: int| 0 <= j < doc@.len() ==> crate::script::line_wf(#[trigger] doc@[j]),
            k <= doc@.len(),
            total == crate::script::prefix_frames(doc@, k as int),
        decreases doc.lines@.len() - k,
    {
        let c: u32 = match &doc.lines[k] {
            Line::Bulk(b) => b.frame_count,
            Line::Other(_) => 0,
        };
        if c as usize > usize::MAX - total {
            proof {
                assert(prefix_frames(doc@, k as int + 1) == prefix_frames(doc@, k as int)
                    + crate::script::line_frames(doc@[k as int]));
                crate::script::lemma_prefix_frames_mono(doc@, k as int + 1, doc@.len() as int);
                assert(crate::script::total_frames(parsed_doc(tv)) > usize::MAX);
            }
            return Err(crate::operation::OpError::FrameCountOverflow);
        }
        total = total + c as usize;
        k = k + 1;
    }
    Ok(doc)
}

} // verus!
