use vstd::prelude::*;
use crate::newlines::NEWLINE;

verus! {

/// One discrepancy that the formatter reports: the whole lines of the
/// original text that it would rewrite, and what it would write there.
/// Line numbers are 1-based.
pub struct Mismatch {
    pub original_begin_line: usize,
    pub original_end_line: usize,
    pub expected_begin_line: usize,
    pub expected_end_line: usize,
    pub original: Vec<u8>,
    pub expected: Vec<u8>,
}

/// The discrepancies that the formatter reports for one file.
pub struct FileWithMismatches {
    pub name: String,
    pub mismatches: Vec<Mismatch>,
}

/// Output of the formatter that breaks what it promises to report; the
/// invocation cannot go on from it.
#[derive(Clone, Copy, Debug, PartialEq, Eq, Structural)]
pub enum ProtocolError {
    /// The report covers more than the one file that was checked.
    WrongFileCount,
    /// The report names another file than the one that was checked.
    WrongFileName,
    /// A reported text does not consist of whole lines.
    PartialLine,
    /// A reported line number does not lie in the document.
    LineOutOfRange,
}

/// The name that the formatter gives to text read from its input.
pub open spec fn stdin_name() -> Seq<char> {
    "<stdin>"@
}

/// Empty, or ending in a line feed.
pub open spec fn is_whole_lines(t: Seq<u8>) -> bool {
    t.len() == 0 || t.last() == NEWLINE
}

/// A pure insertion: no original line is consumed.
pub open spec fn is_insertion(m: Mismatch) -> bool {
    m.original@.len() == 0
}

/// What is wrong with a reported mismatch on its own, if anything.
pub open spec fn mismatch_fault(m: Mismatch) -> Option<ProtocolError> {
    if !is_whole_lines(m.original@) || !is_whole_lines(m.expected@) {
        Some(ProtocolError::PartialLine)
    } else if m.original_begin_line < 1 || (!is_insertion(m) && m.original_end_line < 1) {
        Some(ProtocolError::LineOutOfRange)
    } else {
        None
    }
}

/// Checks that the original and the expected text of a mismatch each end
/// with a line feed where they are not empty.
pub fn is_whole_lines_exec(t: &Vec<u8>) -> (r: bool)
    ensures
        r == is_whole_lines(t@),
{
    t.len() == 0 || t[t.len() - 1] == NEWLINE
}

/// Checks a reported mismatch on its own.
pub fn check_mismatch(m: &Mismatch) -> (r: Option<ProtocolError>)
    ensures
        r == mismatch_fault(*m),
{
    if !is_whole_lines_exec(&m.original) || !is_whole_lines_exec(&m.expected) {
        Some(ProtocolError::PartialLine)
    } else if m.original_begin_line < 1 || (m.original.len() != 0 && m.original_end_line < 1) {
        Some(ProtocolError::LineOutOfRange)
    } else {
        None
    }
}

/// Takes the formatter's report apart: no file means no discrepancy; one
/// file, under the name that text read from input gets, gives its mismatches;
/// anything else breaks the formatter's contract.
pub fn check_report(files: Vec<FileWithMismatches>) -> (r: Result<Vec<Mismatch>, ProtocolError>)
    ensures
        files@.len() == 0 ==> (r matches Ok(v) && v@.len() == 0),
        files@.len() > 1 ==> r == Err::<Vec<Mismatch>, ProtocolError>(
            ProtocolError::WrongFileCount,
        ),
        files@.len() == 1 && files@[0].name@ != stdin_name() ==> r == Err::<
            Vec<Mismatch>,
            ProtocolError,
        >(ProtocolError::WrongFileName),
        files@.len() == 1 && files@[0].name@ == stdin_name() ==> (r matches Ok(v) && v@
            == files@[0].mismatches@),
{
    let mut files = files;
    if files.len() == 0 {
        return Ok(Vec::new());
    }
    if files.len() > 1 {
        return Err(ProtocolError::WrongFileCount);
    }
    let file = files.pop().unwrap();
    let expected = "<stdin>".to_owned();
    proof {
        reveal_strlit("<stdin>");
    }
    if file.name == expected {
        Ok(file.mismatches)
    } else {
        Err(ProtocolError::WrongFileName)
    }
}

} // verus!
