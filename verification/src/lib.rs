//! A reversible-edit engine for a frame-based control script.
//!
//! A script is an ordered sequence of lines; most lines are frame bulks that
//! describe a number of repeated frames of input. Edits are expressed as
//! small, exactly invertible operations; a history log replays them for undo
//! and redo, and a stable byte encoding persists them across restarts.
//! Every apply or undo reports the earliest absolute frame whose content the
//! edit changed, so that consumers can discard cached playback state from
//! that point on.

pub mod addressing;
pub mod codec;
pub mod cvars;
pub mod history;
pub mod operation;
pub mod parse;
pub mod script;
