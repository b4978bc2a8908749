use vstd::prelude::*;

verus! {

/// Why the export of one measurement, or of the whole run, stopped short.
#[derive(Debug, Clone, PartialEq, Eq)]
pub enum ExportError {
    /// The query executor reported that a query did not succeed; the text is
    /// the executor's own.
    ExecutionFailure(String),
    /// A response was not a JSON text; the text says where reading failed.
    ParseFailure(String),
    /// The response to a count query held no row count.
    CountUnavailable,
    /// A page brought no new record before the expected row count was reached.
    NoProgress,
}

impl ExportError {
    /// A line for the operator's log.
    pub fn message(&self) -> (line: String)
        ensures
            match *self {
                ExportError::ExecutionFailure(detail) => line@ == "query failed: "@ + detail@,
                ExportError::ParseFailure(detail) => line@ == "unreadable response: "@ + detail@,
                ExportError::CountUnavailable => line@ == "no row count in the response"@,
                ExportError::NoProgress => line@ == "no new rows before the expected count"@,
            },
    {
        match self {
            ExportError::ExecutionFailure(detail) => {
                let mut line = String::from_str("query failed: ");
                line.append(detail.as_str());
                line
            },
            ExportError::ParseFailure(detail) => {
                let mut line = String::from_str("unreadable response: ");
                line.append(detail.as_str());
                line
            },
            ExportError::CountUnavailable => String::from_str("no row count in the response"),
            ExportError::NoProgress => String::from_str("no new rows before the expected count"),
        }
    }
}

} // verus!
