use tas_edit_core::operation::{OpError, Operation};
use tas_edit_core::parse::document_from_lines;
use tas_edit_core::script::{Document, Key};

fn doc_of(text: &str) -> Document {
    let lines: Vec<String> = text.split('\n').map(|l| l.trim().to_string()).collect();
    document_from_lines(&lines).expect("lines should parse")
}

fn check_op(input: &str, op: Operation, output: &str) {
    let input = doc_of(input);
    let output = doc_of(output);

    let mut modified = input.clone();
    op.apply(&mut modified).expect("apply should succeed");
    assert_eq!(modified, output, "apply produced wrong result");

    op.undo(&mut modified).expect("undo should succeed");
    assert_eq!(modified, input, "undo produced wrong result");
}

#[test]
fn op_set_yaw() {
    check_op(
        "----------|------|------|0.004|10|-|6",
        Operation::SetYaw {
            bulk_idx: 0,
            from: f32::to_bits(10.),
            to: f32::to_bits(15.),
        },
        "----------|------|------|0.004|15|-|6",
    );
}

#[test]
fn op_set_frame_count() {
    check_op(
        "----------|------|------|0.004|10|-|6",
        Operation::SetFrameCount {
            bulk_idx: 0,
            from: 6,
            to: 10,
        },
        "----------|------|------|0.004|10|-|10",
    );
}

#[test]
fn op_set_left_right_count() {
    check_op(
        "s06-------|------|------|0.004|10|-|6",
        Operation::SetLeftRightCount {
            bulk_idx: 0,
            from: 10,
            to: 20,
        },
        "s06-------|------|------|0.004|20|-|6",
    );
    check_op(
        "s07-------|------|------|0.004|10|-|6",
        Operation::SetLeftRightCount {
            bulk_idx: 0,
            from: 10,
            to: 20,
        },
        "s07-------|------|------|0.004|20|-|6",
    );
}

#[test]
fn op_split() {
    check_op(
        "----------|------|------|0.004|10|-|6",
        Operation::Split { frame_idx: 4 },
        "----------|------|------|0.004|10|-|4\n\
        ----------|------|------|0.004|10|-|2",
    );
}

#[test]
fn op_delete() {
    check_op(
        "----------|------|------|0.004|10|-|4\n\
        ----------|------|------|0.004|10|-|2",
        Operation::Delete {
            line_idx: 0,
            line: "----------|------|------|0.004|10|-|4".to_string(),
        },
        "----------|------|------|0.004|10|-|2",
    );
}

#[test]
fn op_insert() {
    check_op(
        "----------|------|------|0.004|10|-|2",
        Operation::Insert {
            line_idx: 0,
            line: "----------|------|------|0.004|10|-|4".to_string(),
        },
        "----------|------|------|0.004|10|-|4\n\
        ----------|------|------|0.004|10|-|2",
    );
}

#[test]
fn op_replace() {
    check_op(
        "----------|------|------|0.004|10|-|4",
        Operation::Replace {
            line_idx: 0,
            from: "----------|------|------|0.004|10|-|4".to_string(),
            to: "s03lj-----|------|------|0.001|15|10|2".to_string(),
        },
        "s03lj-----|------|------|0.001|15|10|2",
    );
}

#[test]
fn op_toggle_key() {
    fn check_key(result: &str, key: Key) {
        check_op(
            "----------|------|------|0.004|10|-|4",
            Operation::ToggleKey {
                bulk_idx: 0,
                key,
                to: true,
            },
            &("----------|".to_string() + result + "|0.004|10|-|4"),
        );
    }

    check_key("f-----|------", Key::Forward);
    check_key("-l----|------", Key::Left);
    check_key("--r---|------", Key::Right);
    check_key("---b--|------", Key::Back);
    check_key("----u-|------", Key::Up);
    check_key("-----d|------", Key::Down);
    check_key("------|j-----", Key::Jump);
    check_key("------|-d----", Key::Duck);
    check_key("------|--u---", Key::Use);
    check_key("------|---1--", Key::Attack1);
    check_key("------|----2-", Key::Attack2);
    check_key("------|-----r", Key::Reload);
}

#[test]
fn set_frame_count_invalidates_from_shorter_length() {
    let mut doc = doc_of("----------|------|------|0.004|10|-|6");
    let op = Operation::SetFrameCount {
        bulk_idx: 0,
        from: 6,
        to: 10,
    };
    let inv = op.apply(&mut doc).expect("apply should succeed");
    assert_eq!(inv, Some(6));
}

#[test]
fn split_invalidates_nothing() {
    let mut doc = doc_of("----------|------|------|0.004|10|-|10");
    let op = Operation::Split { frame_idx: 4 };
    let inv = op.apply(&mut doc).expect("apply should succeed");
    assert_eq!(inv, None);
    let expected = doc_of(
        "----------|------|------|0.004|10|-|4\n\
        ----------|------|------|0.004|10|-|6",
    );
    assert_eq!(doc, expected);
    let inv = op.undo(&mut doc).expect("undo should succeed");
    assert_eq!(inv, None);
}

#[test]
fn errors_are_reported() {
    let mut doc = doc_of("----------|------|------|0.004|10|-|6");
    let orig = doc.clone();

    let bad_idx = Operation::SetFrameCount { bulk_idx: 3, from: 6, to: 10 };
    assert_eq!(bad_idx.apply(&mut doc), Err(OpError::IndexOutOfRange));

    let bad_from = Operation::SetFrameCount { bulk_idx: 0, from: 5, to: 10 };
    assert_eq!(bad_from.apply(&mut doc), Err(OpError::ValueMismatch));

    let bad_to = Operation::SetFrameCount { bulk_idx: 0, from: 6, to: 0 };
    assert_eq!(bad_to.apply(&mut doc), Err(OpError::InvalidCount));

    let no_lr = Operation::SetLeftRightCount { bulk_idx: 0, from: 10, to: 20 };
    assert_eq!(no_lr.apply(&mut doc), Err(OpError::MissingField));

    let bad_split = Operation::Split { frame_idx: 0 };
    assert_eq!(bad_split.apply(&mut doc), Err(OpError::SplitPoint));

    let bad_line = Operation::Insert { line_idx: 0, line: "not a line".to_string() };
    assert_eq!(bad_line.apply(&mut doc), Err(OpError::LineUnparseable));

    let same_key = Operation::ToggleKey { bulk_idx: 0, key: Key::Forward, to: false };
    assert_eq!(same_key.apply(&mut doc), Err(OpError::ValueMismatch));

    assert_eq!(doc, orig, "failed operations must not change the document");
}
