//! Aggregate statistics over a stream of newline-delimited JSON records.
//!
//! Each record is expected to be a JSON object carrying a `"type"` field
//! that names its kind.  The library classifies one line at a time,
//! estimates the byte size of the record's payload, and accumulates a
//! per-type occurrence count and cumulative size, which can be read back
//! as a report.  Reading lines and rendering the report are left to the
//! caller.

pub mod analyzer;
pub mod classify;
pub mod error;
pub mod parse;
pub mod value;

pub use analyzer::Stats;
pub use analyzer::TypeAnalyzer;
pub use analyzer::TypeData;
pub use error::AppError;
pub use value::JsonValue;
pub use value::TypeRecord;
