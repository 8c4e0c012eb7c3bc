use vstd::prelude::*;
use crate::text::{Point, TextRange};

verus! {

/// A half-open span `[start, end)` of 0-based line numbers.
#[derive(Clone, Copy, Debug, PartialEq, Eq, Structural)]
pub struct LineRange {
    pub start: usize,
    pub end: usize,
}

/// One edit that a fix made: where it began, and where the rewritten text
/// ended before and after it.
#[derive(Clone, Copy, Debug, PartialEq, Eq, Structural)]
pub struct InputEdit {
    pub start_byte: usize,
    pub old_end_byte: usize,
    pub new_end_byte: usize,
    pub start_position: Point,
    pub old_end_position: Point,
    pub new_end_position: Point,
}

/// The regions rewritten since the last fixing pass, in the coordinates of
/// the current text.
pub struct EditDelta {
    pub new_ranges: Vec<TextRange>,
}

/// Where in the host's fixing loop a check runs.
pub enum RunStage {
    /// A dry pass over text that was already fixed in this pass.
    Skip,
    /// The first fixing attempt. The prior violations, where present, are the
    /// line spans of the violations of the previous fixing cycle, already
    /// carried through the edits into the current text.
    InitialFixingPass { edits: Option<EditDelta>, prior_violations: Option<Vec<LineRange>> },
    /// A pass of the fixing loop, with every violation and every edit of the
    /// pass before.
    FixingLoopIteration { violations: Vec<TextRange>, fixes: Vec<InputEdit> },
    /// Any other check: the whole document.
    Unscoped,
}

/// What a check does at a given stage.
pub enum CheckPlan {
    /// Nothing: no formatter run, no violation.
    Skip,
    /// A formatter run over the whole document.
    FullCheck,
    /// A formatter run that reports only on these lines.
    ScopedCheck(Vec<LineRange>),
}

/// The lines that a range touches, from its first row to its last.
pub open spec fn rows_of(r: TextRange) -> LineRange {
    LineRange { start: r.start_point.row, end: (r.end_point.row + 1) as usize }
}

/// The lines that an edit rewrote, from its start to its new end.
pub open spec fn rows_of_edit(e: InputEdit) -> LineRange {
    LineRange { start: e.start_position.row, end: (e.new_end_position.row + 1) as usize }
}

/// No row in the stage is the largest `usize`, so that the line after each
/// can be named.
pub open spec fn rows_fit(stage: RunStage) -> bool {
    match stage {
        RunStage::InitialFixingPass { edits: Some(d), .. } => forall|i: int|
            0 <= i < d.new_ranges@.len() ==> #[trigger] d.new_ranges@[i].end_point.row
                < usize::MAX,
        RunStage::FixingLoopIteration { violations, fixes } => {
            &&& forall|i: int|
                0 <= i < violations@.len() ==> #[trigger] violations@[i].end_point.row
                    < usize::MAX
            &&& forall|i: int|
                0 <= i < fixes@.len() ==> #[trigger] fixes@[i].new_end_position.row < usize::MAX
        },
        _ => true,
    }
}

/// The lines to check at `stage`, where a check there is scoped: the lines
/// of each fresh edit, then those of each earlier violation.
pub open spec fn scope_of(stage: RunStage) -> Option<Seq<LineRange>> {
    match stage {
        RunStage::InitialFixingPass { edits: Some(d), prior_violations: Some(p) } => Some(
            d.new_ranges@.map_values(|r: TextRange| rows_of(r)) + p@,
        ),
        RunStage::FixingLoopIteration { violations, fixes } => Some(
            violations@.map_values(|r: TextRange| rows_of(r)) + fixes@.map_values(
                |e: InputEdit| rows_of_edit(e),
            ),
        ),
        _ => None,
    }
}

/// The lines of each range, in order.
pub fn rows_of_ranges(ranges: &Vec<TextRange>) -> (r: Vec<LineRange>)
    requires
        forall|i: int| 0 <= i < ranges@.len() ==> #[trigger] ranges@[i].end_point.row < usize::MAX,
    ensures
        r@ == ranges@.map_values(|x: TextRange| rows_of(x)),
{
    let mut r: Vec<LineRange> = Vec::new();
    let mut i: usize = 0;
    while i < ranges.len()
        invariant
            i <= ranges@.len(),
            forall|j: int|
                0 <= j < ranges@.len() ==> #[trigger] ranges@[j].end_point.row < usize::MAX,
            r@ == ranges@.subrange(0, i as int).map_values(|x: TextRange| rows_of(x)),
        decreases ranges@.len() - i,
    {
        let x = ranges[i];
        r.push(LineRange { start: x.start_point.row, end: x.end_point.row + 1 });
        i = i + 1;
        assert(r@ =~= ranges@.subrange(0, i as int).map_values(|x: TextRange| rows_of(x)));
    }
    assert(ranges@.subrange(0, i as int) =~= ranges@);
    r
}

/// The lines that each edit rewrote, in order.
pub fn rows_of_edits(edits: &Vec<InputEdit>) -> (r: Vec<LineRange>)
    requires
        forall|i: int| 0 <= i < edits@.len() ==> #[trigger] edits@[i].new_end_position.row < usize::MAX,
    ensures
        r@ == edits@.map_values(|e: InputEdit| rows_of_edit(e)),
{
    let mut r: Vec<LineRange> = Vec::new();
    let mut i: usize = 0;
    while i < edits.len()
        invariant
            i <= edits@.len(),
            forall|j: int|
                0 <= j < edits@.len() ==> #[trigger] edits@[j].new_end_position.row < usize::MAX,
            r@ == edits@.subrange(0, i as int).map_values(|e: InputEdit| rows_of_edit(e)),
        decreases edits@.len() - i,
    {
        let e = edits[i];
        r.push(LineRange { start: e.start_position.row, end: e.new_end_position.row + 1 });
        i = i + 1;
        assert(r@ =~= edits@.subrange(0, i as int).map_values(|e: InputEdit| rows_of_edit(e)));
    }
    assert(edits@.subrange(0, i as int) =~= edits@);
    r
}

/// Decides what a check does at `stage`: nothing on a dry pass; the whole
/// document where the stage carries too little history to scope safely; else
/// only the lines that fresh edits or earlier violations touch.
pub fn classify(stage: &RunStage) -> (r: CheckPlan)
    requires
        rows_fit(*stage),
    ensures
        *stage is Skip <==> r is Skip,
        r is ScopedCheck <==> scope_of(*stage) is Some,
        r matches CheckPlan::ScopedCheck(lines) ==> scope_of(*stage) == Some(lines@),
{
    match stage {
        RunStage::Skip => CheckPlan::Skip,
        RunStage::InitialFixingPass { edits, prior_violations } => {
            match (edits, prior_violations) {
                (Some(d), Some(p)) => {
                    let mut lines = rows_of_ranges(&d.new_ranges);
                    let mut rest = p.clone();
                    lines.append(&mut rest);
                    CheckPlan::ScopedCheck(lines)
                },
                _ => CheckPlan::FullCheck,
            }
        },
        RunStage::FixingLoopIteration { violations, fixes } => {
            let mut lines = rows_of_ranges(violations);
            let mut rest = rows_of_edits(fixes);
            lines.append(&mut rest);
            CheckPlan::ScopedCheck(lines)
        },
        RunStage::Unscoped => CheckPlan::FullCheck,
    }
}

/// One entry of the formatter's scoping instruction: a file and the
/// half-open span of lines of it to report on.
pub struct FileLineRange {
    pub file: String,
    pub range: (usize, usize),
}

impl FileLineRange {
    /// The entry for lines `range` of `file`.
    pub fn new(file: &str, range: std::ops::Range<usize>) -> (r: Self)
        ensures
            r.file@ == file@,
            r.range == (range.start, range.end),
    {
        FileLineRange { file: file.to_owned(), range: (range.start, range.end) }
    }
}

/// The name under which the document is handed to the formatter: it reads
/// the text from its input, so this stands in for a real path.
pub open spec fn virtual_file_name() -> Seq<char> {
    "stdin"@
}

/// The scoping instruction for the lines `lines`: one entry each, in order,
/// all naming the document by its placeholder name.
pub fn file_line_ranges(lines: &Vec<LineRange>) -> (r: Vec<FileLineRange>)
    ensures
        r@.len() == lines@.len(),
        forall|i: int|
            0 <= i < lines@.len() ==> {
                &&& (#[trigger] r@[i]).file@ == virtual_file_name()
                &&& r@[i].range == (lines@[i].start, lines@[i].end)
            },
{
    proof {
        reveal_strlit("stdin");
    }
    let mut r: Vec<FileLineRange> = Vec::new();
    let mut i: usize = 0;
    while i < lines.len()
        invariant
            i <= lines@.len(),
            r@.len() == i,
            forall|j: int|
                0 <= j < i ==> {
                    &&& (#[trigger] r@[j]).file@ == virtual_file_name()
                    &&& r@[j].range == (lines@[j].start, lines@[j].end)
                },
        decreases lines@.len() - i,
    {
        let l = lines[i];
        r.push(FileLineRange::new("stdin", l.start..l.end));
        i = i + 1;
    }
    r
}

} // verus!
