//! Locates the discrepancies that an external code formatter reports and
//! turns each of them into an exact byte and row/column range of the checked
//! document, together with the replacement text that repairs it.
//!
//! The formatter itself, the subprocess that runs it and the host engine that
//! applies fixes live outside this library: it works on plain values that the
//! caller hands over and hands plain values back.
pub mod laws;
pub mod localize;
pub mod mismatch;
pub mod newlines;
pub mod stage;
pub mod text;

pub use localize::{emit_violations, violations_from_report, localize_in_bytes, localize_in_index, DocumentText, LineIndex, Violation};
pub use mismatch::{check_mismatch, check_report, FileWithMismatches, Mismatch, ProtocolError};
pub use newlines::get_newline_offsets;
pub use stage::{classify, file_line_ranges, FileLineRange, rows_of_edits, rows_of_ranges, CheckPlan, EditDelta, InputEdit, LineRange, RunStage};
pub use text::{Point, TextRange};
