use vstd::prelude::*;
use crate::localize::{range_in, range_in_bytes, replace_span, DocumentText};
use crate::mismatch::{is_insertion, mismatch_fault, Mismatch};
use crate::newlines::{
    lemma_line_start_monotone, lemma_lines_between, lemma_newline_positions, line_start,
    line_text, lines_between, newline_positions, NEWLINE,
};
use crate::stage::{rows_fit, rows_of, rows_of_edit, scope_of, LineRange, RunStage};
use crate::text::Point;

verus! {

/// A mismatch that consumes original lines `a` to `b` (1-based, inclusive)
/// of a byte buffer covers exactly those lines: the bytes of its range are
/// lines `a` to `b` one after the other, and where line `b` has a line feed
/// the range ends with it.
pub proof fn lemma_range_holds_its_lines(text: Seq<u8>, m: Mismatch)
    requires
        text.len() <= usize::MAX,
        mismatch_fault(m) is None,
        !is_insertion(m),
        m.original_begin_line <= m.original_end_line,
    ensures
        ({
            let r = range_in_bytes(text, m);
            &&& r.start_byte <= r.end_byte <= text.len()
            &&& text.subrange(r.start_byte as int, r.end_byte as int) == lines_between(
                text,
                m.original_begin_line - 1,
                m.original_end_line as int,
            )
            &&& m.original_end_line <= newline_positions(text).len() ==> text[r.end_byte - 1]
                == NEWLINE
        }),
{
    let a = m.original_begin_line - 1;
    let b = m.original_end_line as int;
    lemma_lines_between(text, a, b);
    lemma_line_start_monotone(text, a, b);
    lemma_newline_positions(text);
}

/// A pure insertion is located as a zero-width range at the start of the line
/// on which it begins, in either form of the document.
pub proof fn lemma_insertion_is_zero_width(doc: DocumentText, m: Mismatch)
    requires
        mismatch_fault(m) is None,
        is_insertion(m),
    ensures
        range_in(doc, m).start_byte == range_in(doc, m).end_byte,
        range_in(doc, m).start_point == range_in(doc, m).end_point,
        range_in(doc, m).start_point == (Point { row: (m.original_begin_line - 1) as usize, column: 0 }),
        doc matches DocumentText::Bytes(bytes) ==> range_in(doc, m).start_byte == line_start(
            bytes@,
            m.original_begin_line - 1,
        ) as usize,
{
}

/// The fix for a mismatch confined to one line of a byte buffer, whose
/// original text is that line, gives the buffer with that line replaced by
/// the expected text.
pub proof fn lemma_single_line_fix(text: Seq<u8>, m: Mismatch)
    requires
        text.len() <= usize::MAX,
        mismatch_fault(m) is None,
        m.original_begin_line == m.original_end_line,
        m.original@ == line_text(text, m.original_begin_line - 1),
        !is_insertion(m),
    ensures
        ({
            let r = range_in_bytes(text, m);
            let k = m.original_begin_line - 1;
            replace_span(text, r.start_byte as int, r.end_byte as int, m.expected@)
                == lines_between(text, 0, k) + m.expected@ + text.subrange(
                line_start(text, k + 1),
                text.len() as int,
            )
        }),
{
    let k = m.original_begin_line - 1;
    lemma_lines_between(text, 0, k);
    lemma_line_start_monotone(text, k, k + 1);
}

/// Some line range of `lines` holds `row`.
pub open spec fn covers(lines: Seq<LineRange>, row: int) -> bool {
    exists|k: int| 0 <= k < lines.len() && (#[trigger] lines[k]).start <= row < lines[k].end
}

/// A scoped check leaves out no line that it must see again: every row of a
/// fresh edit, and every row of an earlier violation, lies in one of the line
/// ranges handed to the formatter.
pub proof fn lemma_scope_covers(stage: RunStage)
    requires
        rows_fit(stage),
        scope_of(stage) is Some,
    ensures
        ({
            let lines = scope_of(stage)->Some_0;
            match stage {
                RunStage::InitialFixingPass { edits: Some(d), prior_violations: Some(p) } => {
                    &&& forall|i: int, row: int|
                        0 <= i < d.new_ranges@.len() && d.new_ranges@[i].start_point.row <= row
                            <= #[trigger] d.new_ranges@[i].end_point.row ==> #[trigger] covers(
                            lines,
                            row,
                        )
                    &&& forall|i: int, row: int|
                        0 <= i < p@.len() && p@[i].start <= row < #[trigger] p@[i].end
                            ==> #[trigger] covers(lines, row)
                },
                RunStage::FixingLoopIteration { violations, fixes } => {
                    &&& forall|i: int, row: int|
                        0 <= i < violations@.len() && violations@[i].start_point.row <= row
                            <= #[trigger] violations@[i].end_point.row ==> #[trigger] covers(
                            lines,
                            row,
                        )
                    &&& forall|i: int, row: int|
                        0 <= i < fixes@.len() && fixes@[i].start_position.row <= row
                            <= #[trigger] fixes@[i].new_end_position.row ==> #[trigger] covers(
                            lines,
                            row,
                        )
                },
                _ => true,
            }
        }),
{
    let lines = scope_of(stage)->Some_0;
    match stage {
        RunStage::InitialFixingPass { edits: Some(d), prior_violations: Some(p) } => {
            let n = d.new_ranges@.len();
            assert forall|i: int, row: int|
                0 <= i < n && d.new_ranges@[i].start_point.row <= row
                    <= #[trigger] d.new_ranges@[i].end_point.row implies #[trigger] covers(
                lines,
                row,
            ) by {
                assert(lines[i] == rows_of(d.new_ranges@[i]));
            }
            assert forall|i: int, row: int|
                0 <= i < p@.len() && p@[i].start <= row < #[trigger] p@[i].end implies #[trigger] covers(
                lines,
                row,
            ) by {
                assert(lines[n + i] == p@[i]);
            }
        },
        RunStage::FixingLoopIteration { violations, fixes } => {
            let n = violations@.len();
            assert forall|i: int, row: int|
                0 <= i < n && violations@[i].start_point.row <= row
                    <= #[trigger] violations@[i].end_point.row implies #[trigger] covers(
                lines,
                row,
            ) by {
                assert(lines[i] == rows_of(violations@[i]));
            }
            assert forall|i: int, row: int|
                0 <= i < fixes@.len() && fixes@[i].start_position.row <= row
                    <= #[trigger] fixes@[i].new_end_position.row implies #[trigger] covers(
                lines,
                row,
            ) by {
                assert(lines[n + i] == rows_of_edit(fixes@[i]));
            }
        },
        _ => {},
    }
}

} // verus!
