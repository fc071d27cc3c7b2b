//! The durable byte encoding of operations.
//!
//! Operations are persisted as self-contained little-endian records: a 32-bit
//! variant tag, then the variant's fields in order — indices as 64 bits,
//! counts, yaw bit patterns and key tags as 32 bits, flags as one byte, and
//! line text as a 64-bit byte length followed by its UTF-8 bytes. The tags
//! and field layouts are frozen forever; new variants may only be appended
//! with fresh tags, so every record written by an older variant set decodes
//! identically under any later one.

use vstd::prelude::*;

use vstd::bytes::{
    lemma_auto_spec_u32_to_from_le_bytes, lemma_auto_spec_u64_to_from_le_bytes,
    spec_u32_from_le_bytes, spec_u32_to_le_bytes, spec_u64_from_le_bytes, spec_u64_to_le_bytes,
    u32_from_le_bytes, u32_to_le_bytes, u64_from_le_bytes, u64_to_le_bytes,
};
use vstd::slice::{slice_index_get, slice_subrange};
use vstd::utf8::{decode_utf8, encode_utf8, valid_utf8};

use crate::operation::{OpV, Operation};
use crate::script::Key;

verus! {

/// The frozen tag of each key flag.
pub open spec fn key_tag(k: Key) -> u32 {
    match k {
        Key::Forward => 0,
        Key::Left => 1,
        Key::Right => 2,
        Key::Back => 3,
        Key::Up => 4,
        Key::Down => 5,
        Key::Jump => 6,
        Key::Duck => 7,
        Key::Use => 8,
        Key::Attack1 => 9,
        Key::Attack2 => 10,
        Key::Reload => 11,
    }
}

/// Little-endian bytes of an index.
pub open spec fn enc_u64(v: u64) -> Seq<u8> {
    spec_u64_to_le_bytes(v)
}

/// Length-prefixed UTF-8 bytes of a line text.
pub open spec fn enc_str(s: Seq<char>) -> Seq<u8> {
    spec_u64_to_le_bytes(encode_utf8(s).len() as u64) + encode_utf8(s)
}

/// One byte for a flag.
pub open spec fn enc_bool(b: bool) -> Seq<u8> {
    seq![if b { 1u8 } else { 0u8 }]
}

/// The frozen byte form of an operation.
pub open spec fn encode_spec(op: OpV) -> Seq<u8> {
    match op {
        OpV::SetFrameCount { bulk_idx, from, to } => (spec_u32_to_le_bytes(0) + enc_u64(
            bulk_idx as u64,
        ) + spec_u32_to_le_bytes(from) + spec_u32_to_le_bytes(to)),
        OpV::SetYaw { bulk_idx, from, to } => (spec_u32_to_le_bytes(1) + enc_u64(bulk_idx as u64)
            + spec_u32_to_le_bytes(from) + spec_u32_to_le_bytes(to)),
        OpV::Delete { line_idx, line } => (spec_u32_to_le_bytes(2) + enc_u64(line_idx as u64)
            + enc_str(line)),
        OpV::Split { frame_idx } => spec_u32_to_le_bytes(3) + enc_u64(frame_idx as u64),
        OpV::Replace { line_idx, from, to } => (spec_u32_to_le_bytes(4) + enc_u64(line_idx as u64)
            + enc_str(from) + enc_str(to)),
        OpV::ToggleKey { bulk_idx, key, to } => (spec_u32_to_le_bytes(5) + enc_u64(
            bulk_idx as u64,
        ) + spec_u32_to_le_bytes(key_tag(key)) + enc_bool(to)),
        OpV::Insert { line_idx, line } => (spec_u32_to_le_bytes(6) + enc_u64(line_idx as u64)
            + enc_str(line)),
        OpV::SetLeftRightCount { bulk_idx, from, to } => (spec_u32_to_le_bytes(7) + enc_u64(
            bulk_idx as u64,
        ) + spec_u32_to_le_bytes(from) + spec_u32_to_le_bytes(to)),
    }
}

/// The stored text of an operation fits in memory: true of every operation
/// a program can hold, and what the decoder needs to rebuild one.
pub open spec fn op_encodable(op: OpV) -> bool {
    match op {
        OpV::Delete { line, .. } => encode_utf8(line).len() <= usize::MAX,
        OpV::Insert { line, .. } => encode_utf8(line).len() <= usize::MAX,
        OpV::Replace { from, to, .. } => encode_utf8(from).len() <= usize::MAX && encode_utf8(
            to,
        ).len() <= usize::MAX,
        _ => true,
    }
}

/// Reads a 32-bit little-endian value, returning it and the remaining bytes.
pub open spec fn dec_u32(b: Seq<u8>) -> Option<(u32, Seq<u8>)> {
    if b.len() < 4 {
        None
    } else {
        Some((spec_u32_from_le_bytes(b.take(4)), b.skip(4)))
    }
}

/// Reads a 64-bit little-endian value.
pub open spec fn dec_u64(b: Seq<u8>) -> Option<(u64, Seq<u8>)> {
    if b.len() < 8 {
        None
    } else {
        Some((spec_u64_from_le_bytes(b.take(8)), b.skip(8)))
    }
}

/// Reads an index: a 64-bit value that must be addressable on this machine.
pub open spec fn dec_idx(b: Seq<u8>) -> Option<(usize, Seq<u8>)> {
    match dec_u64(b) {
        None => None,
        Some((v, r)) => if v > usize::MAX {
            None
        } else {
            Some((v as usize, r))
        },
    }
}

/// Reads a length-prefixed UTF-8 line text.
pub open spec fn dec_str(b: Seq<u8>) -> Option<(Seq<char>, Seq<u8>)> {
    match dec_idx(b) {
        None => None,
        Some((n, r)) => if r.len() < n {
            None
        } else if !valid_utf8(r.take(n as int)) {
            None
        } else {
            Some((decode_utf8(r.take(n as int)), r.skip(n as int)))
        },
    }
}

/// Reads a flag byte: strictly 0 or 1.
pub open spec fn dec_bool(b: Seq<u8>) -> Option<(bool, Seq<u8>)> {
    if b.len() < 1 {
        None
    } else if b[0] == 0 {
        Some((false, b.skip(1)))
    } else if b[0] == 1 {
        Some((true, b.skip(1)))
    } else {
        None
    }
}

/// Reads a key tag.
pub open spec fn dec_key(b: Seq<u8>) -> Option<(Key, Seq<u8>)> {
    match dec_u32(b) {
        None => None,
        Some((t, r)) => if t == 0 {
            Some((Key::Forward, r))
        } else if t == 1 {
            Some((Key::Left, r))
        } else if t == 2 {
            Some((Key::Right, r))
        } else if t == 3 {
            Some((Key::Back, r))
        } else if t == 4 {
            Some((Key::Up, r))
        } else if t == 5 {
            Some((Key::Down, r))
        } else if t == 6 {
            Some((Key::Jump, r))
        } else if t == 7 {
            Some((Key::Duck, r))
        } else if t == 8 {
            Some((Key::Use, r))
        } else if t == 9 {
            Some((Key::Attack1, r))
        } else if t == 10 {
            Some((Key::Attack2, r))
        } else if t == 11 {
            Some((Key::Reload, r))
        } else {
            None
        },
    }
}

/// What one full record of bytes means: the operation it decodes to, or
/// `None` when the bytes are not exactly one record of a known variant.
/// Decoding dispatches on the frozen tag alone, so records written before a
/// variant was appended keep their meaning.
pub open spec fn decode_spec(b: Seq<u8>) -> Option<OpV> {
    match dec_u32(b) {
        None => None,
        Some((tag, r)) => if tag == 0 {
            match dec_idx(r) {
                None => None,
                Some((bulk_idx, r)) => match dec_u32(r) {
                    None => None,
                    Some((from, r)) => match dec_u32(r) {
                        None => None,
                        Some((to, r)) => if r.len() == 0 {
                            Some(OpV::SetFrameCount { bulk_idx, from, to })
                        } else {
                            None
                        },
                    },
                },
            }
        } else if tag == 1 {
            match dec_idx(r) {
                None => None,
                Some((bulk_idx, r)) => match dec_u32(r) {
                    None => None,
                    Some((from, r)) => match dec_u32(r) {
                        None => None,
                        Some((to, r)) => if r.len() == 0 {
                            Some(OpV::SetYaw { bulk_idx, from, to })
                        } else {
                            None
                        },
                    },
                },
            }
        } else if tag == 2 {
            match dec_idx(r) {
                None => None,
                Some((line_idx, r)) => match dec_str(r) {
                    None => None,
                    Some((line, r)) => if r.len() == 0 {
                        Some(OpV::Delete { line_idx, line })
                    } else {
                        None
                    },
                },
            }
        } else if tag == 3 {
            match dec_idx(r) {
                None => None,
                Some((frame_idx, r)) => if r.len() == 0 {
                    Some(OpV::Split { frame_idx })
                } else {
                    None
                },
            }
        } else if tag == 4 {
            match dec_idx(r) {
                None => None,
                Some((line_idx, r)) => match dec_str(r) {
                    None => None,
                    Some((from, r)) => match dec_str(r) {
                        None => None,
                        Some((to, r)) => if r.len() == 0 {
                            Some(OpV::Replace { line_idx, from, to })
                        } else {
                            None
                        },
                    },
                },
            }
        } else if tag == 5 {
            match dec_idx(r) {
                None => None,
                Some((bulk_idx, r)) => match dec_key(r) {
                    None => None,
                    Some((key, r)) => match dec_bool(r) {
                        None => None,
                        Some((to, r)) => if r.len() == 0 {
                            Some(OpV::ToggleKey { bulk_idx, key, to })
                        } else {
                            None
                        },
                    },
                },
            }
        } else if tag == 6 {
            match dec_idx(r) {
                None => None,
                Some((line_idx, r)) => match dec_str(r) {
                    None => None,
                    Some((line, r)) => if r.len() == 0 {
                        Some(OpV::Insert { line_idx, line })
                    } else {
                        None
                    },
                },
            }
        } else if tag == 7 {
            match dec_idx(r) {
                None => None,
                Some((bulk_idx, r)) => match dec_u32(r) {
                    None => None,
                    Some((from, r)) => match dec_u32(r) {
                        None => None,
                        Some((to, r)) => if r.len() == 0 {
                            Some(OpV::SetLeftRightCount { bulk_idx, from, to })
                        } else {
                            None
                        },
                    },
                },
            }
        } else {
            None
        },
    }
}

/// Relies on `str::from_utf8`: it succeeds exactly on valid UTF-8 and
/// decodes it to the characters the bytes encode.
#[verifier::external_body]
fn bytes_to_string(b: &[u8]) -> (r: Option<String>)
    ensures
        match r {
            Some(s) => valid_utf8(b@) && s@ == decode_utf8(b@),
            None => !valid_utf8(b@),
        },
{
    match std::str::from_utf8(b) {
        Ok(s) => Some(s.to_string()),
        Err(_) => None,
    }
}

fn push_u32(buf: &mut Vec<u8>, v: u32)
    ensures
        final(buf)@ == old(buf)@ + spec_u32_to_le_bytes(v),
{
    let mut t = u32_to_le_bytes(v);
    buf.append(&mut t);
}

fn push_u64(buf: &mut Vec<u8>, v: u64)
    ensures
        final(buf)@ == old(buf)@ + spec_u64_to_le_bytes(v),
{
    let mut t = u64_to_le_bytes(v);
    buf.append(&mut t);
}

fn push_str(buf: &mut Vec<u8>, s: &str)
    ensures
        final(buf)@ == old(buf)@ + enc_str(s@),
        encode_utf8(s@).len() <= usize::MAX,
{
    let bs = s.as_bytes();
    push_u64(buf, bs.len() as u64);
    buf.extend_from_slice(bs);
    proof {
        assert(buf@ =~= old(buf)@ + enc_str(s@));
    }
}

/// Encodes one operation as one frozen-layout record.
pub fn encode(op: &Operation) -> (r: Vec<u8>)
    ensures
        r@ == encode_spec(op@),
        op_encodable(op@),
{
    let mut buf: Vec<u8> = Vec::new();
    match op {
        Operation::SetFrameCount { bulk_idx, from, to } => {
            push_u32(&mut buf, 0);
            push_u64(&mut buf, *bulk_idx as u64);
            push_u32(&mut buf, *from);
            push_u32(&mut buf, *to);
        },
        Operation::SetYaw { bulk_idx, from, to } => {
            push_u32(&mut buf, 1);
            push_u64(&mut buf, *bulk_idx as u64);
            push_u32(&mut buf, *from);
            push_u32(&mut buf, *to);
        },
        Operation::Delete { line_idx, line } => {
            push_u32(&mut buf, 2);
            push_u64(&mut buf, *line_idx as u64);
            push_str(&mut buf, line.as_str());
        },
        Operation::Split { frame_idx } => {
            push_u32(&mut buf, 3);
            push_u64(&mut buf, *frame_idx as u64);
        },
        Operation::Replace { line_idx, from, to } => {
            push_u32(&mut buf, 4);
            push_u64(&mut buf, *line_idx as u64);
            push_str(&mut buf, from.as_str());
            push_str(&mut buf, to.as_str());
        },
        Operation::ToggleKey { bulk_idx, key, to } => {
            push_u32(&mut buf, 5);
            push_u64(&mut buf, *bulk_idx as u64);
            let t: u32 = match key {
                Key::Forward => 0,
                Key::Left => 1,
                Key::Right => 2,
                Key::Back => 3,
                Key::Up => 4,
                Key::Down => 5,
                Key::Jump => 6,
                Key::Duck => 7,
                Key::Use => 8,
                Key::Attack1 => 9,
                Key::Attack2 => 10,
                Key::Reload => 11,
            };
            push_u32(&mut buf, t);
            let fl: u8 = if *to {
                1
            } else {
                0
            };
            buf.push(fl);
        },
        Operation::Insert { line_idx, line } => {
            push_u32(&mut buf, 6);
            push_u64(&mut buf, *line_idx as u64);
            push_str(&mut buf, line.as_str());
        },
        Operation::SetLeftRightCount { bulk_idx, from, to } => {
            push_u32(&mut buf, 7);
            push_u64(&mut buf, *bulk_idx as u64);
            push_u32(&mut buf, *from);
            push_u32(&mut buf, *to);
        },
    }
    proof {
        assert(buf@ =~= encode_spec(op@));
    }
    buf
}

fn read_u32(b: &[u8], i: usize) -> (r: Option<(u32, usize)>)
    requires
        i <= b@.len(),
    ensures
        match r {
            Some((v, j)) => {
                &&& i <= j <= b@.len()
                &&& dec_u32(b@.skip(i as int)) == Some((v, b@.skip(j as int)))
            },
            None => dec_u32(b@.skip(i as int)) is None,
        },
{
    if b.len() - i < 4 {
        return None;
    }
    let sub = slice_subrange(b, i, i + 4);
    let v = u32_from_le_bytes(sub);
    proof {
        assert(b@.skip(i as int).take(4) =~= b@.subrange(i as int, i as int + 4));
        assert(b@.skip(i as int).skip(4) =~= b@.skip(i as int + 4));
    }
    Some((v, i + 4))
}

fn read_u64(b: &[u8], i: usize) -> (r: Option<(u64, usize)>)
    requires
        i <= b@.len(),
    ensures
        match r {
            Some((v, j)) => {
                &&& i <= j <= b@.len()
                &&& dec_u64(b@.skip(i as int)) == Some((v, b@.skip(j as int)))
            },
            None => dec_u64(b@.skip(i as int)) is None,
        },
{
    if b.len() - i < 8 {
        return None;
    }
    let sub = slice_subrange(b, i, i + 8);
    let v = u64_from_le_bytes(sub);
    proof {
        assert(b@.skip(i as int).take(8) =~= b@.subrange(i as int, i as int + 8));
        assert(b@.skip(i as int).skip(8) =~= b@.skip(i as int + 8));
    }
    Some((v, i + 8))
}

fn read_idx(b: &[u8], i: usize) -> (r: Option<(usize, usize)>)
    requires
        i <= b@.len(),
    ensures
        match r {
            Some((v, j)) => {
                &&& i <= j <= b@.len()
                &&& dec_idx(b@.skip(i as int)) == Some((v, b@.skip(j as int)))
            },
            None => dec_idx(b@.skip(i as int)) is None,
        },
{
    let (v, j) = match read_u64(b, i) {
        None => {
            return None;
        },
        Some(x) => x,
    };
    if v > usize::MAX as u64 {
        return None;
    }
    Some((v as usize, j))
}

fn read_str(b: &[u8], i: usize) -> (r: Option<(String, usize)>)
    requires
        i <= b@.len(),
    ensures
        match r {
            Some((s, j)) => {
                &&& i <= j <= b@.len()
                &&& dec_str(b@.skip(i as int)) == Some((s@, b@.skip(j as int)))
            },
            None => dec_str(b@.skip(i as int)) is None,
        },
{
    let (n, j) = match read_idx(b, i) {
        None => {
            return None;
        },
        Some(x) => x,
    };
    proof {
        assert(b@.skip(j as int).len() == b@.len() - j);
    }
    if b.len() - j < n {
        return None;
    }
    let sub = slice_subrange(b, j, j + n);
    proof {
        assert(b@.skip(j as int).take(n as int) =~= b@.subrange(j as int, j as int + n));
    }
    let s = match bytes_to_string(sub) {
        None => {
            return None;
        },
        Some(s) => s,
    };
    proof {
        assert(b@.skip(j as int).skip(n as int) =~= b@.skip(j as int + n));
    }
    Some((s, j + n))
}

fn read_bool(b: &[u8], i: usize) -> (r: Option<(bool, usize)>)
    requires
        i <= b@.len(),
    ensures
        match r {
            Some((v, j)) => {
                &&& i <= j <= b@.len()
                &&& dec_bool(b@.skip(i as int)) == Some((v, b@.skip(j as int)))
            },
            None => dec_bool(b@.skip(i as int)) is None,
        },
{
    if b.len() - i < 1 {
        return None;
    }
    let byte = *slice_index_get(b, i);
    proof {
        assert(b@.skip(i as int)[0] == b@[i as int]);
        assert(b@.skip(i as int).skip(1) =~= b@.skip(i as int + 1));
    }
    if byte == 0 {
        Some((false, i + 1))
    } else if byte == 1 {
        Some((true, i + 1))
    } else {
        None
    }
}

fn read_key(b: &[u8], i: usize) -> (r: Option<(Key, usize)>)
    requires
        i <= b@.len(),
    ensures
        match r {
            Some((v, j)) => {
                &&& i <= j <= b@.len()
                &&& dec_key(b@.skip(i as int)) == Some((v, b@.skip(j as int)))
            },
            None => dec_key(b@.skip(i as int)) is None,
        },
{
    let (t, j) = match read_u32(b, i) {
        None => {
            return None;
        },
        Some(x) => x,
    };
    let k = match t {
        0 => Key::Forward,
        1 => Key::Left,
        2 => Key::Right,
        3 => Key::Back,
        4 => Key::Up,
        5 => Key::Down,
        6 => Key::Jump,
        7 => Key::Duck,
        8 => Key::Use,
        9 => Key::Attack1,
        10 => Key::Attack2,
        11 => Key::Reload,
        _ => {
            return None;
        },
    };
    Some((k, j))
}

/// Decodes one record. Succeeds exactly when the bytes are one whole record
/// of a known variant, and then returns the operation they encode.
#[verifier::rlimit(100)]
pub fn decode(b: &[u8]) -> (r: Option<Operation>)
    ensures
        match r {
            Some(op) => decode_spec(b@) == Some(op@),
            None => decode_spec(b@) is None,
        },
{
    proof {
        assert(b@.skip(0) =~= b@);
    }
    let n = b.len();
    let (tag, i) = match read_u32(b, 0) {
        None => {
            return None;
        },
        Some(x) => x,
    };
    if tag == 0 || tag == 1 || tag == 7 {
        let (bulk_idx, i) = match read_idx(b, i) {
            None => {
                return None;
            },
            Some(x) => x,
        };
        let (from, i) = match read_u32(b, i) {
            None => {
                return None;
            },
            Some(x) => x,
        };
        let (to, i) = match read_u32(b, i) {
            None => {
                return None;
            },
            Some(x) => x,
        };
        if i != n {
            return None;
        }
        if tag == 0 {
            Some(Operation::SetFrameCount { bulk_idx, from, to })
        } else if tag == 1 {
            Some(Operation::SetYaw { bulk_idx, from, to })
        } else {
            Some(Operation::SetLeftRightCount { bulk_idx, from, to })
        }
    } else if tag == 2 || tag == 6 {
        let (line_idx, i) = match read_idx(b, i) {
            None => {
                return None;
            },
            Some(x) => x,
        };
        let (line, i) = match read_str(b, i) {
            None => {
                return None;
            },
            Some(x) => x,
        };
        if i != n {
            return None;
        }
        if tag == 2 {
            Some(Operation::Delete { line_idx, line })
        } else {
            Some(Operation::Insert { line_idx, line })
        }
    } else if tag == 3 {
        let (frame_idx, i) = match read_idx(b, i) {
            None => {
                return None;
            },
            Some(x) => x,
        };
        if i != n {
            return None;
        }
        Some(Operation::Split { frame_idx })
    } else if tag == 4 {
        let (line_idx, i) = match read_idx(b, i) {
            None => {
                return None;
            },
            Some(x) => x,
        };
        let (from, i) = match read_str(b, i) {
            None => {
                return None;
            },
            Some(x) => x,
        };
        let (to, i) = match read_str(b, i) {
            None => {
                return None;
            },
            Some(x) => x,
        };
        if i != n {
            return None;
        }
        Some(Operation::Replace { line_idx, from, to })
    } else if tag == 5 {
        let (bulk_idx, i) = match read_idx(b, i) {
            None => {
                return None;
            },
            Some(x) => x,
        };
        let (key, i) = match read_key(b, i) {
            None => {
                return None;
            },
            Some(x) => x,
        };
        let (to, i) = match read_bool(b, i) {
            None => {
                return None;
            },
            Some(x) => x,
        };
        if i != n {
            return None;
        }
        Some(Operation::ToggleKey { bulk_idx, key, to })
    } else {
        None
    }
}


proof fn lemma_dec_u32_enc(v: u32, rest: Seq<u8>)
    ensures
        dec_u32(spec_u32_to_le_bytes(v) + rest) == Some((v, rest)),
{
    lemma_auto_spec_u32_to_from_le_bytes();
    assert((spec_u32_to_le_bytes(v) + rest).take(4) =~= spec_u32_to_le_bytes(v));
    assert((spec_u32_to_le_bytes(v) + rest).skip(4) =~= rest);
}

proof fn lemma_dec_u64_enc(v: u64, rest: Seq<u8>)
    ensures
        dec_u64(spec_u64_to_le_bytes(v) + rest) == Some((v, rest)),
{
    lemma_auto_spec_u64_to_from_le_bytes();
    assert((spec_u64_to_le_bytes(v) + rest).take(8) =~= spec_u64_to_le_bytes(v));
    assert((spec_u64_to_le_bytes(v) + rest).skip(8) =~= rest);
}

proof fn lemma_dec_idx_enc(v: usize, rest: Seq<u8>)
    ensures
        dec_idx(enc_u64(v as u64) + rest) == Some((v, rest)),
{
    lemma_dec_u64_enc(v as u64, rest);
}

proof fn lemma_dec_str_enc(s: Seq<char>, rest: Seq<u8>)
    requires
        encode_utf8(s).len() <= usize::MAX,
    ensures
        dec_str(enc_str(s) + rest) == Some((s, rest)),
{
    let u = encode_utf8(s);
    let n = u.len() as usize;
    assert(enc_str(s) + rest =~= enc_u64(n as u64) + (u + rest));
    lemma_dec_idx_enc(n, u + rest);
    assert((u + rest).take(n as int) =~= u);
    assert((u + rest).skip(n as int) =~= rest);
    vstd::utf8::encode_utf8_valid_utf8(s);
    vstd::utf8::encode_utf8_decode_utf8(s);
}

proof fn lemma_dec_bool_enc(v: bool, rest: Seq<u8>)
    ensures
        dec_bool(enc_bool(v) + rest) == Some((v, rest)),
{
    assert((enc_bool(v) + rest)[0] == enc_bool(v)[0]);
    assert((enc_bool(v) + rest).skip(1) =~= rest);
}

proof fn lemma_dec_key_enc(k: Key, rest: Seq<u8>)
    ensures
        dec_key(spec_u32_to_le_bytes(key_tag(k)) + rest) == Some((k, rest)),
{
    lemma_dec_u32_enc(key_tag(k), rest);
}

/// Law of the durable encoding: decoding is the exact inverse of encoding,
/// so every record a program can write is read back as the same operation,
/// under this variant set and under any later one that only appends tags.
pub proof fn lemma_codec_round_trip(op: OpV)
    requires
        op_encodable(op),
    ensures
        decode_spec(encode_spec(op)) == Some(op),
{
    match op {
        OpV::SetFrameCount { bulk_idx, from, to } => {
            lemma_round_trip_iuu(op, 0, bulk_idx, from, to);
        },
        OpV::SetYaw { bulk_idx, from, to } => {
            lemma_round_trip_iuu(op, 1, bulk_idx, from, to);
        },
        OpV::SetLeftRightCount { bulk_idx, from, to } => {
            lemma_round_trip_iuu(op, 7, bulk_idx, from, to);
        },
        OpV::Delete { line_idx, line } => {
            lemma_round_trip_istr(op, 2, line_idx, line);
        },
        OpV::Insert { line_idx, line } => {
            lemma_round_trip_istr(op, 6, line_idx, line);
        },
        OpV::Split { frame_idx } => {
            let b = encode_spec(op);
            let r1 = enc_u64(frame_idx as u64);
            lemma_dec_u32_enc(3, r1);
            lemma_dec_idx_enc(frame_idx, Seq::<u8>::empty());
            assert(r1 =~= enc_u64(frame_idx as u64) + Seq::<u8>::empty());
        },
        OpV::Replace { line_idx, from, to } => {
            let b = encode_spec(op);
            let r1 = enc_u64(line_idx as u64) + enc_str(from) + enc_str(to);
            assert(b =~= spec_u32_to_le_bytes(4) + r1);
            lemma_dec_u32_enc(4, r1);
            let r2 = enc_str(from) + enc_str(to);
            assert(r1 =~= enc_u64(line_idx as u64) + r2);
            lemma_dec_idx_enc(line_idx, r2);
            let r3 = enc_str(to);
            lemma_dec_str_enc(from, r3);
            assert(r3 =~= enc_str(to) + Seq::<u8>::empty());
            lemma_dec_str_enc(to, Seq::<u8>::empty());
        },
        OpV::ToggleKey { bulk_idx, key, to } => {
            let b = encode_spec(op);
            let r1 = enc_u64(bulk_idx as u64) + spec_u32_to_le_bytes(key_tag(key)) + enc_bool(to);
            assert(b =~= spec_u32_to_le_bytes(5) + r1);
            lemma_dec_u32_enc(5, r1);
            let r2 = spec_u32_to_le_bytes(key_tag(key)) + enc_bool(to);
            assert(r1 =~= enc_u64(bulk_idx as u64) + r2);
            lemma_dec_idx_enc(bulk_idx, r2);
            let r3 = enc_bool(to);
            lemma_dec_key_enc(key, r3);
            assert(r3 =~= enc_bool(to) + Seq::<u8>::empty());
            lemma_dec_bool_enc(to, Seq::<u8>::empty());
        },
    }
}

proof fn lemma_round_trip_iuu(op: OpV, tag: u32, bulk_idx: usize, from: u32, to: u32)
    requires
        tag == 0 ==> op == (OpV::SetFrameCount { bulk_idx, from, to }),
        tag == 1 ==> op == (OpV::SetYaw { bulk_idx, from, to }),
        tag == 7 ==> op == (OpV::SetLeftRightCount { bulk_idx, from, to }),
        tag == 0 || tag == 1 || tag == 7,
    ensures
        decode_spec(encode_spec(op)) == Some(op),
{
    let b = encode_spec(op);
    let r1 = enc_u64(bulk_idx as u64) + spec_u32_to_le_bytes(from) + spec_u32_to_le_bytes(to);
    assert(b =~= spec_u32_to_le_bytes(tag) + r1);
    lemma_dec_u32_enc(tag, r1);
    let r2 = spec_u32_to_le_bytes(from) + spec_u32_to_le_bytes(to);
    assert(r1 =~= enc_u64(bulk_idx as u64) + r2);
    lemma_dec_idx_enc(bulk_idx, r2);
    let r3 = spec_u32_to_le_bytes(to);
    lemma_dec_u32_enc(from, r3);
    assert(r3 =~= spec_u32_to_le_bytes(to) + Seq::<u8>::empty());
    lemma_dec_u32_enc(to, Seq::<u8>::empty());
}

proof fn lemma_round_trip_istr(op: OpV, tag: u32, line_idx: usize, line: Seq<char>)
    requires
        tag == 2 ==> op == (OpV::Delete { line_idx, line }),
        tag == 6 ==> op == (OpV::Insert { line_idx, line }),
        tag == 2 || tag == 6,
        encode_utf8(line).len() <= usize::MAX,
    ensures
        decode_spec(encode_spec(op)) == Some(op),
{
    let b = encode_spec(op);
    let r1 = enc_u64(line_idx as u64) + enc_str(line);
    assert(b =~= spec_u32_to_le_bytes(tag) + r1);
    lemma_dec_u32_enc(tag, r1);
    let r2 = enc_str(line);
    assert(r1 =~= enc_u64(line_idx as u64) + r2);
    lemma_dec_idx_enc(line_idx, r2);
    assert(r2 =~= enc_str(line) + Seq::<u8>::empty());
    lemma_dec_str_enc(line, Seq::<u8>::empty());
}

} // verus!
