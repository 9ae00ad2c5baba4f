//! The failures that the library reports.

use vstd::prelude::*;
use vstd::string::StringExecFns;
use crate::mccs::{ParserError, ParserErrorKind};

verus! {

/// What went wrong with a monitor.
#[derive(Debug, Clone, Copy, PartialEq, Eq)]
pub enum MonitorErrorKind {
    /// The capability string could not be parsed.
    Parser(ParserErrorKind),
    /// The capability bytes are no text.
    Decode,
    /// The monitors could not be listed.
    DeviceEnumeration,
    /// The capability string could not be read from the monitor.
    DeviceRead,
    /// The monitor did not take a new value.
    DeviceWrite,
    /// The handle of the monitor is in use.
    HandleContention,
}

/// A failure as a mathematical value.
pub ghost struct MonitorErrorView {
    pub kind: MonitorErrorKind,
    pub description: Seq<char>,
}

/// A failure of a monitor, with its description in words.
#[derive(Debug, PartialEq, Eq)]
pub struct MonitorError {
    pub kind: MonitorErrorKind,
    pub description: String,
}

impl View for MonitorError {
    type V = MonitorErrorView;

    open spec fn view(&self) -> MonitorErrorView {
        MonitorErrorView { kind: self.kind, description: self.description@ }
    }
}

impl Clone for MonitorError {
    fn clone(&self) -> (copy: MonitorError)
        ensures
            copy@ == self@,
    {
        MonitorError { kind: self.kind, description: self.description.clone() }
    }
}

impl MonitorError {
    /// The failure that a parser error stands for.
    pub open spec fn spec_from_parser(err: ParserError) -> MonitorErrorView {
        MonitorErrorView {
            kind: MonitorErrorKind::Parser(err.kind),
            description: err.spec_to_string(),
        }
    }

    /// The failure of bytes that are no text.
    pub open spec fn spec_decode() -> MonitorErrorView {
        MonitorErrorView {
            kind: MonitorErrorKind::Decode,
            description: "Unable to build cap string from buffer"@,
        }
    }

    /// The failure of a monitor that gave no reply.
    pub open spec fn spec_read_failed() -> MonitorErrorView {
        MonitorErrorView {
            kind: MonitorErrorKind::DeviceRead,
            description: "Failed to read cap string from monitor"@,
        }
    }

    /// The failure of a write that the monitor did not take.
    pub open spec fn spec_write_failed() -> MonitorErrorView {
        MonitorErrorView {
            kind: MonitorErrorKind::DeviceWrite,
            description: "Failed to set VCP feature"@,
        }
    }

    /// The failure of a write to a monitor whose handle is in use.
    pub open spec fn spec_handle_in_use() -> MonitorErrorView {
        MonitorErrorView {
            kind: MonitorErrorKind::HandleContention,
            description: "already borrowed"@,
        }
    }

    /// A failure of the given kind, described in the given words.
    pub fn new(kind: MonitorErrorKind, description: String) -> (err: MonitorError)
        ensures
            err@ == (MonitorErrorView { kind, description: description@ }),
    {
        MonitorError { kind, description }
    }

    /// The failure that a parser error stands for: it keeps the kind and
    /// the text of the parser error.
    pub fn from_parser(err: ParserError) -> (res: MonitorError)
        ensures
            res@ == MonitorError::spec_from_parser(err),
    {
        MonitorError { kind: MonitorErrorKind::Parser(err.kind), description: err.to_string() }
    }

    /// The failure of bytes that are no text.
    pub fn decode() -> (res: MonitorError)
        ensures
            res@ == MonitorError::spec_decode(),
    {
        MonitorError {
            kind: MonitorErrorKind::Decode,
            description: String::from_str("Unable to build cap string from buffer"),
        }
    }

    /// The failure of a monitor that gave no reply.
    pub fn read_failed() -> (res: MonitorError)
        ensures
            res@ == MonitorError::spec_read_failed(),
    {
        MonitorError {
            kind: MonitorErrorKind::DeviceRead,
            description: String::from_str("Failed to read cap string from monitor"),
        }
    }

    /// The failure of a write that the monitor did not take.
    pub fn write_failed() -> (res: MonitorError)
        ensures
            res@ == MonitorError::spec_write_failed(),
    {
        MonitorError {
            kind: MonitorErrorKind::DeviceWrite,
            description: String::from_str("Failed to set VCP feature"),
        }
    }

    /// The failure of a write to a monitor whose handle is in use.
    pub fn handle_in_use() -> (res: MonitorError)
        ensures
            res@ == MonitorError::spec_handle_in_use(),
    {
        MonitorError {
            kind: MonitorErrorKind::HandleContention,
            description: String::from_str("already borrowed"),
        }
    }

    /// The text of this error as it is shown to a reader.
    pub fn to_string(&self) -> (text: String)
        ensures
            text@ == "Monitor Error: "@ + self@.description,
    {
        String::from_str("Monitor Error: ").concat(self.description.as_str())
    }
}

} // verus!
