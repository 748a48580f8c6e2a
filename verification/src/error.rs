use vstd::prelude::*;

verus! {

/// Everything that can go wrong while analyzing a stream of records.
///
/// The three classification failures are local to one line and carry the
/// offending line's raw text so the caller can log it; they never abort a
/// run.  `IoError` is reserved for the line source itself failing: the
/// library never produces it, the driver does, and it is fatal to the run.
#[derive(Debug, Clone, PartialEq, Eq)]
pub enum AppError {
    /// The input source could not be read; carries a description.
    IoError(String),
    /// The line is not a syntactically valid JSON object; carries the line.
    SerdeJsonError(String),
    /// The line parses but has no field named "type"; carries the line.
    NoFieldTypeInJson(String),
    /// The "type" field exists but its value is not a string; carries the line.
    FieldTypeIsNotString(String),
}

} // verus!
