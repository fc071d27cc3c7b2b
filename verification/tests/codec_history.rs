use tas_edit_core::codec::{decode, encode};
use tas_edit_core::history::{combine_invalidation, History};
use tas_edit_core::operation::Operation;
use tas_edit_core::parse::document_from_lines;
use tas_edit_core::cvars::{is_valid_c_string, CVar};
use tas_edit_core::script::{Document, Key};

fn doc_of(text: &str) -> Document {
    let lines: Vec<String> = text.split('\n').map(|l| l.trim().to_string()).collect();
    document_from_lines(&lines).expect("lines should parse")
}

fn round_trip(op: Operation) {
    let bytes = encode(&op);
    assert_eq!(decode(&bytes), Some(op));
}

#[test]
fn codec_round_trips_every_variant() {
    round_trip(Operation::SetFrameCount { bulk_idx: 1, from: 6, to: 10 });
    round_trip(Operation::SetYaw { bulk_idx: 0, from: f32::to_bits(10.), to: f32::to_bits(15.) });
    round_trip(Operation::Delete { line_idx: 2, line: "frame".to_string() });
    round_trip(Operation::Split { frame_idx: 4 });
    round_trip(Operation::Replace { line_idx: 0, from: "a".to_string(), to: "b".to_string() });
    round_trip(Operation::ToggleKey { bulk_idx: 3, key: Key::Duck, to: true });
    round_trip(Operation::Insert { line_idx: 1, line: "x".to_string() });
    round_trip(Operation::SetLeftRightCount { bulk_idx: 0, from: 10, to: 20 });
}

#[test]
fn codec_fixtures_are_frozen() {
    // These byte strings are permanent: they pin the durable layout.
    let op = Operation::Split { frame_idx: 4 };
    assert_eq!(encode(&op), vec![3, 0, 0, 0, 4, 0, 0, 0, 0, 0, 0, 0]);

    let op = Operation::SetFrameCount { bulk_idx: 1, from: 6, to: 10 };
    assert_eq!(
        encode(&op),
        vec![0, 0, 0, 0, 1, 0, 0, 0, 0, 0, 0, 0, 6, 0, 0, 0, 10, 0, 0, 0]
    );

    let op = Operation::Insert { line_idx: 1, line: "ab".to_string() };
    assert_eq!(
        encode(&op),
        vec![6, 0, 0, 0, 1, 0, 0, 0, 0, 0, 0, 0, 2, 0, 0, 0, 0, 0, 0, 0, 97, 98]
    );

    let op = Operation::ToggleKey { bulk_idx: 0, key: Key::Reload, to: true };
    assert_eq!(
        encode(&op),
        vec![5, 0, 0, 0, 0, 0, 0, 0, 0, 0, 0, 0, 11, 0, 0, 0, 1]
    );
}

#[test]
fn decode_rejects_unknown_tags_and_junk() {
    assert_eq!(decode(&[]), None);
    assert_eq!(decode(&[200, 0, 0, 0, 4, 0, 0, 0, 0, 0, 0, 0]), None);
    // A truncated record.
    assert_eq!(decode(&[3, 0, 0, 0, 4, 0]), None);
    // Trailing bytes after a whole record.
    assert_eq!(decode(&[3, 0, 0, 0, 4, 0, 0, 0, 0, 0, 0, 0, 9]), None);
}

#[test]
fn history_undo_redo() {
    let mut doc = doc_of("----------|------|------|0.004|10|-|6");
    let orig = doc.clone();
    let mut hist = History::new();

    let op1 = Operation::SetFrameCount { bulk_idx: 0, from: 6, to: 10 };
    assert_eq!(hist.apply(&mut doc, op1), Ok(Some(6)));
    let after1 = doc.clone();

    let op2 = Operation::Split { frame_idx: 4 };
    assert_eq!(hist.apply(&mut doc, op2), Ok(None));

    assert_eq!(hist.undo(&mut doc), Ok(Some(None)));
    assert_eq!(doc, after1);
    assert_eq!(hist.undo(&mut doc), Ok(Some(Some(6))));
    assert_eq!(doc, orig);
    assert_eq!(hist.undo(&mut doc), Ok(None));

    assert_eq!(hist.redo(&mut doc), Ok(Some(Some(6))));
    assert_eq!(doc, after1);

    // A new edit discards the redo tail.
    let op3 = Operation::ToggleKey { bulk_idx: 0, key: Key::Jump, to: true };
    assert_eq!(hist.apply(&mut doc, op3), Ok(Some(0)));
    assert_eq!(hist.redo(&mut doc), Ok(None));
}

#[test]
fn combine_takes_the_minimum() {
    assert_eq!(combine_invalidation(None, None), None);
    assert_eq!(combine_invalidation(Some(3), None), Some(3));
    assert_eq!(combine_invalidation(None, Some(7)), Some(7));
    assert_eq!(combine_invalidation(Some(9), Some(2)), Some(2));
}

#[test]
fn cvar_model() {
    let name = b"bxt_example\0".to_vec();
    let default = b"0\0".to_vec();
    assert!(is_valid_c_string(&name));
    assert!(is_valid_c_string(&default));
    assert!(!is_valid_c_string(&b"no terminator".to_vec()));
    assert!(!is_valid_c_string(&b"inner\0byte\0".to_vec()));

    let mut v = CVar::new(name, default);
    assert!(!v.is_registered());
    v.register();
    assert!(v.is_registered());
    assert!(!v.as_bool());
    v.set_nonzero(true);
    assert!(v.as_bool());
    v.mark_as_not_registered();
    assert!(!v.is_registered());
}
