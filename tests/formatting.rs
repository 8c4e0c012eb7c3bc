use rustfmt_lint::{
    check_report, classify, emit_violations, file_line_ranges, get_newline_offsets,
    localize_in_bytes, localize_in_index, violations_from_report, CheckPlan, DocumentText,
    EditDelta, FileLineRange, FileWithMismatches, InputEdit, LineIndex, LineRange, Mismatch, Point,
    ProtocolError, RunStage, TextRange,
};

fn mismatch(begin: usize, end: usize, original: &str, expected: &str) -> Mismatch {
    Mismatch {
        original_begin_line: begin,
        original_end_line: end,
        expected_begin_line: begin,
        expected_end_line: end,
        original: original.as_bytes().to_vec(),
        expected: expected.as_bytes().to_vec(),
    }
}

fn report(ms: Vec<Mismatch>) -> Vec<FileWithMismatches> {
    vec![FileWithMismatches { name: "<stdin>".to_string(), mismatches: ms }]
}

fn bytes(s: &str) -> DocumentText {
    DocumentText::Bytes(s.as_bytes().to_vec())
}

fn point(row: usize, column: usize) -> Point {
    Point { row, column }
}

fn range(start_byte: usize, end_byte: usize, start_row: usize, end_row: usize) -> TextRange {
    TextRange { start_byte, end_byte, start_point: point(start_row, 0), end_point: point(end_row, 0) }
}

/// The line starts of `s` as a rope reports them, the end of the text included.
fn index_of(s: &str) -> LineIndex {
    let mut starts = vec![0];
    for (i, b) in s.bytes().enumerate() {
        if b == b'\n' {
            starts.push(i + 1);
        }
    }
    if *starts.last().unwrap() != s.len() {
        starts.push(s.len());
    }
    LineIndex { starts }
}

#[test]
fn test_basic() {
    let valid = "fn whee() {}\n";
    let vs = violations_from_report(&bytes(valid), Vec::new()).unwrap();
    assert_eq!(vs.len(), 0);

    let code = "fn whee( ) {}\n";
    let doc = bytes(code);
    let vs = violations_from_report(&doc, report(vec![mismatch(1, 1, code, "fn whee() {}\n")]))
        .unwrap();
    assert_eq!(vs.len(), 1);
    let fixed = vs[0].apply_fix(&code.as_bytes().to_vec());
    assert_eq!(fixed, b"fn whee() {}\n".to_vec());
}

#[test]
fn whee_through_line_index() {
    let code = "fn whee( ) {}\n";
    let doc = DocumentText::Indexed(index_of(code));
    let vs = violations_from_report(&doc, report(vec![mismatch(1, 1, code, "fn whee() {}\n")]))
        .unwrap();
    assert_eq!(vs.len(), 1);
    assert_eq!(vs[0].range, range(0, 14, 0, 1));
    assert_eq!(vs[0].apply_fix(&code.as_bytes().to_vec()), b"fn whee() {}\n".to_vec());
}

#[test]
fn well_formatted_file_with_no_mismatches() {
    let vs = violations_from_report(&bytes("fn whee() {}\n"), report(Vec::new())).unwrap();
    assert!(vs.is_empty());
}

#[test]
fn newline_offsets() {
    assert_eq!(get_newline_offsets(b""), Vec::<usize>::new());
    assert_eq!(get_newline_offsets(b"abc"), Vec::<usize>::new());
    assert_eq!(get_newline_offsets(b"a\nbc\n\nd"), vec![1, 4, 5]);
}

#[test]
fn localizes_middle_lines_of_a_buffer() {
    let text = b"one\ntwo\nthree\nfour\n";
    let nl = get_newline_offsets(text);
    let m = mismatch(2, 3, "two\nthree\n", "two three\n");
    let r = localize_in_bytes(text, &nl, &m);
    assert_eq!(r, range(4, 14, 1, 3));
    assert_eq!(&text[r.start_byte..r.end_byte], b"two\nthree\n");
}

#[test]
fn localizes_first_line_of_a_buffer() {
    let text = b"one\ntwo\n";
    let nl = get_newline_offsets(text);
    let r = localize_in_bytes(text, &nl, &mismatch(1, 1, "one\n", "1\n"));
    assert_eq!(r, range(0, 4, 0, 1));
}

#[test]
fn clamps_lines_past_the_last_line_feed() {
    let text = b"one\ntwo";
    let nl = get_newline_offsets(text);
    let r = localize_in_bytes(text, &nl, &mismatch(2, 2, "two\n", "2\n"));
    assert_eq!(r, range(4, 7, 1, 2));
    let r = localize_in_bytes(text, &nl, &mismatch(5, 6, "x\n", "y\n"));
    assert_eq!(r, range(7, 7, 4, 6));
}

#[test]
fn insertion_is_zero_width_in_a_buffer() {
    let text = b"one\ntwo\n";
    let nl = get_newline_offsets(text);
    let r = localize_in_bytes(text, &nl, &mismatch(2, 1, "", "\n"));
    assert_eq!(r, range(4, 4, 1, 1));
}

#[test]
fn insertion_is_zero_width_in_an_index() {
    let index = index_of("one\ntwo\n");
    let r = localize_in_index(&index, &mismatch(2, 1, "", "\n"));
    assert_eq!(r, range(4, 4, 1, 1));
}

#[test]
fn localizes_through_an_index() {
    let index = index_of("one\ntwo\nthree\n");
    let r = localize_in_index(&index, &mismatch(2, 3, "two\nthree\n", "two three\n"));
    assert_eq!(r, range(4, 14, 1, 3));
}

#[test]
fn deletion_replaces_with_nothing() {
    let code = "a\n\n\nb\n";
    let doc = bytes(code);
    let vs = violations_from_report(&doc, report(vec![mismatch(2, 3, "\n\n", "")])).unwrap();
    assert_eq!(vs[0].range, range(2, 4, 1, 3));
    assert_eq!(vs[0].apply_fix(&code.as_bytes().to_vec()), b"a\nb\n".to_vec());
}

#[test]
fn one_violation_per_mismatch_in_order() {
    let code = "a\nb\nc\n";
    let ms = vec![mismatch(3, 3, "c\n", "C\n"), mismatch(1, 1, "a\n", "A\n")];
    let vs = emit_violations(&bytes(code), &ms).unwrap();
    assert_eq!(vs.len(), 2);
    assert_eq!(vs[0].range, range(4, 6, 2, 3));
    assert_eq!(vs[0].replacement, b"C\n".to_vec());
    assert_eq!(vs[1].range, range(0, 2, 0, 1));
    assert_eq!(vs[1].replacement, b"A\n".to_vec());
}

#[test]
fn partial_line_is_a_protocol_error() {
    let ms = vec![mismatch(1, 1, "fn whee( ) {}\n", "fn whee() {}")];
    assert_eq!(emit_violations(&bytes("fn whee( ) {}\n"), &ms).err(), Some(ProtocolError::PartialLine));
    let ms = vec![mismatch(1, 1, "fn", "fn\n")];
    assert_eq!(emit_violations(&bytes("fn\n"), &ms).err(), Some(ProtocolError::PartialLine));
}

#[test]
fn line_zero_is_out_of_range() {
    let ms = vec![mismatch(0, 1, "a\n", "b\n")];
    assert_eq!(emit_violations(&bytes("a\n"), &ms).err(), Some(ProtocolError::LineOutOfRange));
}

#[test]
fn line_past_the_index_is_out_of_range() {
    let doc = DocumentText::Indexed(index_of("a\n"));
    let ms = vec![mismatch(2, 3, "b\nc\n", "d\n")];
    assert_eq!(emit_violations(&doc, &ms).err(), Some(ProtocolError::LineOutOfRange));
}

#[test]
fn first_fault_wins() {
    let ms = vec![mismatch(1, 1, "a\n", "A\n"), mismatch(0, 0, "b", "B\n"), mismatch(0, 1, "a\n", "")];
    assert_eq!(emit_violations(&bytes("a\n"), &ms).err(), Some(ProtocolError::PartialLine));
}

#[test]
fn more_than_one_file_is_refused() {
    let mut files = report(Vec::new());
    files.extend(report(Vec::new()));
    assert_eq!(check_report(files).err(), Some(ProtocolError::WrongFileCount));
}

#[test]
fn another_file_name_is_refused() {
    let files = vec![FileWithMismatches { name: "stdin".to_string(), mismatches: Vec::new() }];
    assert_eq!(
        violations_from_report(&bytes(""), files).err(),
        Some(ProtocolError::WrongFileName)
    );
}

#[test]
fn report_without_files_has_no_mismatches() {
    assert_eq!(check_report(Vec::new()).unwrap().len(), 0);
}

#[test]
fn dry_pass_is_skipped() {
    assert!(matches!(classify(&RunStage::Skip), CheckPlan::Skip));
}

#[test]
fn unscoped_stage_checks_everything() {
    assert!(matches!(classify(&RunStage::Unscoped), CheckPlan::FullCheck));
}

#[test]
fn initial_pass_without_history_checks_everything() {
    let stage = RunStage::InitialFixingPass { edits: None, prior_violations: None };
    assert!(matches!(classify(&stage), CheckPlan::FullCheck));
    let stage = RunStage::InitialFixingPass {
        edits: Some(EditDelta { new_ranges: vec![range(0, 3, 0, 0)] }),
        prior_violations: None,
    };
    assert!(matches!(classify(&stage), CheckPlan::FullCheck));
    let stage = RunStage::InitialFixingPass {
        edits: None,
        prior_violations: Some(vec![LineRange { start: 1, end: 2 }]),
    };
    assert!(matches!(classify(&stage), CheckPlan::FullCheck));
}

#[test]
fn initial_pass_with_history_is_scoped() {
    let stage = RunStage::InitialFixingPass {
        edits: Some(EditDelta { new_ranges: vec![range(0, 3, 0, 0), range(10, 30, 2, 4)] }),
        prior_violations: Some(vec![LineRange { start: 7, end: 9 }]),
    };
    match classify(&stage) {
        CheckPlan::ScopedCheck(lines) => assert_eq!(
            lines,
            vec![
                LineRange { start: 0, end: 1 },
                LineRange { start: 2, end: 5 },
                LineRange { start: 7, end: 9 },
            ]
        ),
        _ => panic!("expected a scoped check"),
    }
}

#[test]
fn fixing_loop_is_scoped_by_violations_and_fixes() {
    let edit = InputEdit {
        start_byte: 5,
        old_end_byte: 9,
        new_end_byte: 6,
        start_position: point(3, 1),
        old_end_position: point(6, 0),
        new_end_position: point(3, 2),
    };
    let stage = RunStage::FixingLoopIteration {
        violations: vec![range(0, 10, 0, 2)],
        fixes: vec![edit],
    };
    match classify(&stage) {
        CheckPlan::ScopedCheck(lines) => assert_eq!(
            lines,
            vec![LineRange { start: 0, end: 3 }, LineRange { start: 3, end: 4 }]
        ),
        _ => panic!("expected a scoped check"),
    }
}

#[test]
fn empty_fixing_loop_is_scoped_to_nothing() {
    let stage = RunStage::FixingLoopIteration { violations: Vec::new(), fixes: Vec::new() };
    match classify(&stage) {
        CheckPlan::ScopedCheck(lines) => assert!(lines.is_empty()),
        _ => panic!("expected a scoped check"),
    }
}

#[test]
fn scoping_instruction_names_the_placeholder_file() {
    let entries = file_line_ranges(&vec![LineRange { start: 0, end: 1 }, LineRange { start: 4, end: 9 }]);
    assert_eq!(entries.len(), 2);
    assert_eq!(entries[0].file, "stdin");
    assert_eq!(entries[0].range, (0, 1));
    assert_eq!(entries[1].file, "stdin");
    assert_eq!(entries[1].range, (4, 9));
}

#[test]
fn file_line_range_keeps_its_span() {
    let e = FileLineRange::new("stdin", 3..8);
    assert_eq!(e.file, "stdin");
    assert_eq!(e.range, (3, 8));
}

#[test]
fn applying_all_fixes_of_a_single_line_discrepancy() {
    let code = "fn a() {}\nfn  b() {}\nfn c() {}\n";
    let doc = bytes(code);
    let vs = violations_from_report(&doc, report(vec![mismatch(2, 2, "fn  b() {}\n", "fn b() {}\n")]))
        .unwrap();
    assert_eq!(vs.len(), 1);
    assert_eq!(
        vs[0].apply_fix(&code.as_bytes().to_vec()),
        b"fn a() {}\nfn b() {}\nfn c() {}\n".to_vec()
    );
}
