use vstd::prelude::*;
use crate::mismatch::{
    check_mismatch, check_report, is_insertion, mismatch_fault, stdin_name, FileWithMismatches,
    Mismatch, ProtocolError,
};
use crate::newlines::{get_newline_offsets, line_start, newline_positions};
use crate::text::{Point, TextRange};

verus! {

/// The line index of a rope: the byte offset at which each line begins, for
/// every line and for the end of the text (`starts[n]` is where line `n`
/// begins).
pub struct LineIndex {
    pub starts: Vec<usize>,
}

/// The text of the checked document, in whichever form the host holds it.
pub enum DocumentText {
    /// A rope, which can say where each line begins.
    Indexed(LineIndex),
    /// A plain byte buffer, with no line index.
    Bytes(Vec<u8>),
}

/// A formatting discrepancy ready to report: where it is, and the text that
/// replaces that span to repair it.
pub struct Violation {
    pub range: TextRange,
    pub replacement: Vec<u8>,
}

/// The point at which a mismatch begins: column 0 of its first original line.
pub open spec fn start_point_of(m: Mismatch) -> Point {
    Point { row: (m.original_begin_line - 1) as usize, column: 0 }
}

/// The point at which a mismatch ends: where it begins for an insertion, else
/// column 0 of the line after its last original line.
pub open spec fn end_point_of(m: Mismatch) -> Point {
    if is_insertion(m) {
        start_point_of(m)
    } else {
        Point { row: m.original_end_line, column: 0 }
    }
}

/// The range that a mismatch covers in a byte buffer `s`.
pub open spec fn range_in_bytes(s: Seq<u8>, m: Mismatch) -> TextRange {
    let start = line_start(s, m.original_begin_line - 1);
    TextRange {
        start_byte: start as usize,
        end_byte: if is_insertion(m) {
            start as usize
        } else {
            line_start(s, m.original_end_line as int) as usize
        },
        start_point: start_point_of(m),
        end_point: end_point_of(m),
    }
}

/// Whether the line index knows every line that a mismatch refers to.
pub open spec fn in_index(starts: Seq<usize>, m: Mismatch) -> bool {
    &&& m.original_begin_line - 1 < starts.len()
    &&& !is_insertion(m) ==> m.original_end_line < starts.len()
}

/// The range that a mismatch covers in a text with line starts `starts`.
pub open spec fn range_in_index(starts: Seq<usize>, m: Mismatch) -> TextRange {
    let start = starts[m.original_begin_line - 1];
    TextRange {
        start_byte: start,
        end_byte: if is_insertion(m) {
            start
        } else {
            starts[m.original_end_line as int]
        },
        start_point: start_point_of(m),
        end_point: end_point_of(m),
    }
}

/// What stops a mismatch from being located in `doc`, if anything.
pub open spec fn locate_fault(doc: DocumentText, m: Mismatch) -> Option<ProtocolError> {
    if mismatch_fault(m) is Some {
        mismatch_fault(m)
    } else {
        match doc {
            DocumentText::Indexed(index) => if in_index(index.starts@, m) {
                None
            } else {
                Some(ProtocolError::LineOutOfRange)
            },
            DocumentText::Bytes(_) => None,
        }
    }
}

/// The range of a mismatch that can be located in `doc`.
pub open spec fn range_in(doc: DocumentText, m: Mismatch) -> TextRange {
    match doc {
        DocumentText::Indexed(index) => range_in_index(index.starts@, m),
        DocumentText::Bytes(bytes) => range_in_bytes(bytes@, m),
    }
}

/// The violation that reports mismatch `m` of `doc`.
pub open spec fn reports(doc: DocumentText, m: Mismatch, v: Violation) -> bool {
    v.range == range_in(doc, m) && v.replacement@ == m.expected@
}

/// The violations `vs` report the mismatches `ms` of `doc`, one each, in order.
pub open spec fn reports_all(doc: DocumentText, ms: Seq<Mismatch>, vs: Seq<Violation>) -> bool {
    &&& vs.len() == ms.len()
    &&& forall|i: int| 0 <= i < ms.len() ==> reports(doc, #[trigger] ms[i], vs[i])
}

/// The first fault among the mismatches `ms`, in the order they came.
pub open spec fn first_fault(doc: DocumentText, ms: Seq<Mismatch>, e: ProtocolError) -> bool {
    exists|i: int|
        0 <= i < ms.len() && locate_fault(doc, #[trigger] ms[i]) == Some(e) && forall|j: int|
            0 <= j < i ==> locate_fault(doc, #[trigger] ms[j]) is None
}

/// Locates a mismatch in a byte buffer whose newline index is `newlines`.
/// Line numbers past the last line feed stand for the end of the buffer.
pub fn localize_in_bytes(text: &[u8], newlines: &Vec<usize>, m: &Mismatch) -> (r: TextRange)
    requires
        newlines@ == newline_positions(text@),
        mismatch_fault(*m) is None,
    ensures
        r == range_in_bytes(text@, *m),
{
    let len = text.len();
    proof {
        crate::newlines::lemma_newline_positions(text@);
    }
    let begin = m.original_begin_line;
    let start_byte: usize = if begin >= 2 {
        if begin - 2 < newlines.len() {
            newlines[begin - 2] + 1
        } else {
            len
        }
    } else {
        0
    };
    let start_point = Point { row: begin - 1, column: 0 };
    if m.original.len() == 0 {
        TextRange { start_byte, end_byte: start_byte, start_point, end_point: start_point }
    } else {
        let end = m.original_end_line;
        let end_byte: usize = if end - 1 < newlines.len() {
            newlines[end - 1] + 1
        } else {
            len
        };
        TextRange { start_byte, end_byte, start_point, end_point: Point { row: end, column: 0 } }
    }
}

/// Locates a mismatch in a text whose line starts are known.
pub fn localize_in_index(index: &LineIndex, m: &Mismatch) -> (r: TextRange)
    requires
        mismatch_fault(*m) is None,
        in_index(index.starts@, *m),
    ensures
        r == range_in_index(index.starts@, *m),
{
    let begin = m.original_begin_line;
    let start_byte = index.starts[begin - 1];
    let start_point = Point { row: begin - 1, column: 0 };
    if m.original.len() == 0 {
        TextRange { start_byte, end_byte: start_byte, start_point, end_point: start_point }
    } else {
        let end = m.original_end_line;
        TextRange {
            start_byte,
            end_byte: index.starts[end],
            start_point,
            end_point: Point { row: end, column: 0 },
        }
    }
}

/// Turns each mismatch into the violation that reports it, in order. The
/// newline index of a byte buffer is built once for all of them. Fails on the
/// first mismatch that cannot be located.
pub fn emit_violations(doc: &DocumentText, mismatches: &Vec<Mismatch>) -> (r: Result<
    Vec<Violation>,
    ProtocolError,
>)
    ensures
        r matches Ok(vs) ==> reports_all(*doc, mismatches@, vs@),
        r matches Err(e) ==> first_fault(*doc, mismatches@, e),
        (forall|i: int| 0 <= i < mismatches@.len() ==> locate_fault(*doc, #[trigger] mismatches@[i]) is None)
            <==> r is Ok,
{
    let newlines: Vec<usize> = match doc {
        DocumentText::Bytes(bytes) => get_newline_offsets(bytes.as_slice()),
        DocumentText::Indexed(_) => Vec::new(),
    };
    let mut out: Vec<Violation> = Vec::new();
    let mut i: usize = 0;
    while i < mismatches.len()
        invariant
            i <= mismatches@.len(),
            doc matches DocumentText::Bytes(bytes) ==> newlines@ == newline_positions(bytes@),
            out@.len() == i,
            forall|j: int| 0 <= j < i ==> locate_fault(*doc, #[trigger] mismatches@[j]) is None,
            forall|j: int| 0 <= j < i ==> reports(*doc, #[trigger] mismatches@[j], out@[j]),
        decreases mismatches@.len() - i,
    {
        let m = &mismatches[i];
        let fault = check_mismatch(m);
        if let Some(e) = fault {
            return Err(e);
        }
        let range = match doc {
            DocumentText::Bytes(bytes) => localize_in_bytes(bytes.as_slice(), &newlines, m),
            DocumentText::Indexed(index) => {
                let begin = m.original_begin_line;
                if begin - 1 >= index.starts.len() || (m.original.len() != 0
                    && m.original_end_line >= index.starts.len()) {
                    return Err(ProtocolError::LineOutOfRange);
                }
                localize_in_index(index, m)
            },
        };
        out.push(Violation { range, replacement: m.expected.clone() });
        i = i + 1;
    }
    Ok(out)
}

/// The violations for the formatter's report on `doc`: none where it names no
/// file; a protocol error where it names another file or more than one, or
/// where a mismatch cannot be located; else one violation per mismatch.
pub fn violations_from_report(doc: &DocumentText, files: Vec<FileWithMismatches>) -> (r: Result<
    Vec<Violation>,
    ProtocolError,
>)
    ensures
        files@.len() == 0 ==> (r matches Ok(vs) && vs@.len() == 0),
        files@.len() == 1 && files@[0].name@ == stdin_name() && files@[0].mismatches@.len() == 0
            ==> (r matches Ok(vs) && vs@.len() == 0),
        files@.len() > 1 ==> r == Err::<Vec<Violation>, ProtocolError>(
            ProtocolError::WrongFileCount,
        ),
        files@.len() == 1 && files@[0].name@ != stdin_name() ==> r == Err::<
            Vec<Violation>,
            ProtocolError,
        >(ProtocolError::WrongFileName),
        files@.len() == 1 && files@[0].name@ == stdin_name() ==> {
            let ms = files@[0].mismatches@;
            &&& r matches Ok(vs) ==> reports_all(*doc, ms, vs@)
            &&& r matches Err(e) ==> first_fault(*doc, ms, e)
            &&& (forall|i: int| 0 <= i < ms.len() ==> locate_fault(*doc, #[trigger] ms[i]) is None)
                <==> r is Ok
        },
{
    match check_report(files) {
        Ok(mismatches) => emit_violations(doc, &mismatches),
        Err(e) => Err(e),
    }
}

/// `text` with the bytes from `start` up to `end` replaced by `by`.
pub open spec fn replace_span(text: Seq<u8>, start: int, end: int, by: Seq<u8>) -> Seq<u8> {
    text.subrange(0, start) + by + text.subrange(end, text.len() as int)
}

impl Violation {
    /// The fix of this violation: its byte range of `text` replaced by the
    /// text that the formatter expects there.
    pub fn apply_fix(&self, text: &Vec<u8>) -> (r: Vec<u8>)
        requires
            self.range.start_byte <= self.range.end_byte <= text@.len(),
        ensures
            r@ == replace_span(
                text@,
                self.range.start_byte as int,
                self.range.end_byte as int,
                self.replacement@,
            ),
    {
        let mut r: Vec<u8> = Vec::new();
        let mut i: usize = 0;
        while i < self.range.start_byte
            invariant
                i <= self.range.start_byte <= self.range.end_byte <= text@.len(),
                r@ == text@.subrange(0, i as int),
            decreases self.range.start_byte - i,
        {
            r.push(text[i]);
            i = i + 1;
            assert(r@ =~= text@.subrange(0, i as int));
        }
        let mut k: usize = 0;
        while k < self.replacement.len()
            invariant
                k <= self.replacement@.len(),
                r@ == text@.subrange(0, self.range.start_byte as int) + self.replacement@.subrange(
                    0,
                    k as int,
                ),
            decreases self.replacement@.len() - k,
        {
            r.push(self.replacement[k]);
            k = k + 1;
            assert(r@ =~= text@.subrange(0, self.range.start_byte as int)
                + self.replacement@.subrange(0, k as int));
        }
        assert(self.replacement@.subrange(0, k as int) =~= self.replacement@);
        let mut j: usize = self.range.end_byte;
        let ghost head = r@;
        while j < text.len()
            invariant
                self.range.end_byte <= j <= text@.len(),
                r@ == head + text@.subrange(self.range.end_byte as int, j as int),
            decreases text@.len() - j,
        {
            r.push(text[j]);
            j = j + 1;
            assert(r@ =~= head + text@.subrange(self.range.end_byte as int, j as int));
        }
        r
    }
}

} // verus!
