//! The error taxonomy of a run.
//!
//! Every failure of a run falls under one of these variants; each carries
//! the detail the invoker needs to identify the failing path and the
//! underlying cause.  All errors are terminal: a failing stage aborts the
//! run and nothing downstream executes.

use vstd::prelude::*;
use vstd::string::StringExecFns;

verus! {

/// Everything that can go wrong in one run, with the failing path and
/// the underlying system error text as the carried detail.
pub enum ListError {
    /// The input path does not exist.
    InputNotFound(String),
    /// The input path exists but cannot be opened for reading.
    InputNotReadable(String),
    /// The input bytes are not valid text.
    InputDecodeError(String),
    /// The output path cannot be created or opened for writing.
    OutputNotWritable(String),
    /// Writing the output failed midway.
    OutputIOError(String),
}

/// Names the failing stage, before the carried detail.
pub const MSG_INPUT_NOT_FOUND: &'static str = "input file not found: ";

/// Names the failing stage, before the carried detail.
pub const MSG_INPUT_NOT_READABLE: &'static str = "could not read input file: ";

/// Names the failing stage, before the carried detail.
pub const MSG_INPUT_DECODE: &'static str = "input file is not valid text: ";

/// Names the failing stage, before the carried detail.
pub const MSG_OUTPUT_NOT_WRITABLE: &'static str = "could not create output file: ";

/// Names the failing stage, before the carried detail.
pub const MSG_OUTPUT_IO: &'static str = "could not write output file: ";

/// The diagnostic for `e`: a fixed prefix naming the failing stage and
/// operation, then the carried detail.
pub open spec fn spec_message(e: ListError) -> Seq<char> {
    match e {
        ListError::InputNotFound(d) => MSG_INPUT_NOT_FOUND@ + d@,
        ListError::InputNotReadable(d) => MSG_INPUT_NOT_READABLE@ + d@,
        ListError::InputDecodeError(d) => MSG_INPUT_DECODE@ + d@,
        ListError::OutputNotWritable(d) => MSG_OUTPUT_NOT_WRITABLE@ + d@,
        ListError::OutputIOError(d) => MSG_OUTPUT_IO@ + d@,
    }
}

impl ListError {
    /// The human-readable diagnostic for this error.
    pub fn message(&self) -> (msg: String)
        ensures
            msg@ == spec_message(*self),
    {
        let (prefix, detail): (&str, &String) = match self {
            ListError::InputNotFound(d) => (MSG_INPUT_NOT_FOUND, d),
            ListError::InputNotReadable(d) => (MSG_INPUT_NOT_READABLE, d),
            ListError::InputDecodeError(d) => (MSG_INPUT_DECODE, d),
            ListError::OutputNotWritable(d) => (MSG_OUTPUT_NOT_WRITABLE, d),
            ListError::OutputIOError(d) => (MSG_OUTPUT_IO, d),
        };
        let mut msg = prefix.to_owned();
        msg.append(detail.as_str());
        msg
    }
}

} // verus!
