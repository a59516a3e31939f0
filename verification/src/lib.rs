//! Report generator for time-tracking frames: parses `identifier:path`
//! arguments, validates frame timestamps, and aggregates per-identifier
//! durations into a printable summary.

use vstd::prelude::*;

pub mod frames;
pub mod input;
pub mod render;
pub mod report;

verus! {

/// The failures the report builder can signal. All of them abort a run:
/// there is no partial report.
#[derive(Clone, Copy, Debug, PartialEq, Eq, Structural)]
pub enum ReportError {
    /// An `identifier:path` argument had no colon.
    InputFormatError,
    /// An input file could not be read.
    FileReadError,
    /// An input file was not a JSON array of frame records.
    ParseError,
    /// A frame's `start` or `end` was outside the representable range.
    DateConversionError,
}

impl ReportError {
    /// A human-readable message for the error, printed when the run aborts.
    pub fn message(&self) -> (r: &'static str)
        ensures
            r@.len() > 0,
    {
        proof {
            reveal_strlit("File list must be in the format username:path");
            reveal_strlit("could not read an input file");
            reveal_strlit("input file is not a valid list of frames");
            reveal_strlit("Frame could not be cleaned, likely a date error.");
        }
        match self {
            ReportError::InputFormatError => "File list must be in the format username:path",
            ReportError::FileReadError => "could not read an input file",
            ReportError::ParseError => "input file is not a valid list of frames",
            ReportError::DateConversionError => "Frame could not be cleaned, likely a date error.",
        }
    }
}

} // verus!
