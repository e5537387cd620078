//! The error type shared by the path resolver, the theme table, the
//! formatter and the drivers around them, with its exit codes and the
//! text each variant reports.

use vstd::prelude::*;
use vstd::string::StringExecFns;
use crate::text::dec_nat;
use crate::text::dec_usize;

verus! {

/// Everything that can go wrong while reformatting a document.
#[derive(Debug, Clone, PartialEq, Eq)]
pub enum JsonfizzError {
    /// A document could not be parsed: the input format, the parser's
    /// message, and an optional rendered location.
    Parse { format: String, message: String, loc: String },
    /// A malformed extraction path, or one that does not match the value.
    Path(String),
    /// A configuration problem, such as an unknown theme or format name.
    Config(String),
    /// Malformed data for a conversion, such as a non-tabular value
    /// handed to the CSV export.
    Data(String),
    /// An I/O failure, carrying the reported message.
    Io(String),
}

impl JsonfizzError {
    /// The location suffix that `parse_error` builds from an optional
    /// line and column.
    pub open spec fn spec_loc(line: Option<usize>, column: Option<usize>) -> Seq<char> {
        match (line, column) {
            (Some(l), Some(c)) => " at line "@ + dec_nat(l as nat) + ", column "@ + dec_nat(
                c as nat,
            ),
            (Some(l), None) => " at line "@ + dec_nat(l as nat),
            (None, Some(c)) => " at column "@ + dec_nat(c as nat),
            (None, None) => Seq::<char>::empty(),
        }
    }

    /// The full text that `message` reports for this error.
    pub open spec fn spec_message(self) -> Seq<char> {
        match self {
            JsonfizzError::Parse { format, message, loc } => format@ + " parse error"@ + loc@
                + ": "@ + message@,
            JsonfizzError::Path(s) => "Path error: "@ + s@,
            JsonfizzError::Config(s) => "Config error: "@ + s@,
            JsonfizzError::Data(s) => "Error: "@ + s@,
            JsonfizzError::Io(s) => "IO error: "@ + s@,
        }
    }

    /// Parse and path errors exit with 1, everything else with 2.
    pub fn exit_code(&self) -> (code: i32)
        ensures
            code == match *self {
                JsonfizzError::Parse { .. } | JsonfizzError::Path(_) => 1int,
                _ => 2int,
            },
    {
        match self {
            JsonfizzError::Parse { .. } | JsonfizzError::Path(_) => 1,
            _ => 2,
        }
    }

    /// Builds a parse error, rendering the optional line and column into
    /// a location suffix.
    pub fn parse_error(format: &str, message: &str, line: Option<usize>, column: Option<usize>) -> (
        r: JsonfizzError)
        ensures
            r matches JsonfizzError::Parse { format: f, message: m, loc }
                && f@ == format@
                && m@ == message@
                && loc@ == Self::spec_loc(line, column),
    {
        let loc = match (line, column) {
            (Some(l), Some(c)) => {
                let mut s = String::from_str(" at line ");
                s.append(dec_usize(l).as_str());
                s.append(", column ");
                s.append(dec_usize(c).as_str());
                s
            },
            (Some(l), None) => {
                let mut s = String::from_str(" at line ");
                s.append(dec_usize(l).as_str());
                s
            },
            (None, Some(c)) => {
                let mut s = String::from_str(" at column ");
                s.append(dec_usize(c).as_str());
                s
            },
            (None, None) => String::new(),
        };
        JsonfizzError::Parse {
            format: String::from_str(format),
            message: String::from_str(message),
            loc,
        }
    }

    /// The text this error reports, one line naming the error kind and
    /// its details.
    pub fn message(&self) -> (r: String)
        ensures
            r@ == self.spec_message(),
    {
        match self {
            JsonfizzError::Parse { format, message, loc } => {
                let mut s = format.clone();
                s.append(" parse error");
                s.append(loc.as_str());
                s.append(": ");
                s.append(message.as_str());
                s
            },
            JsonfizzError::Path(m) => {
                let mut s = String::from_str("Path error: ");
                s.append(m.as_str());
                s
            },
            JsonfizzError::Config(m) => {
                let mut s = String::from_str("Config error: ");
                s.append(m.as_str());
                s
            },
            JsonfizzError::Data(m) => {
                let mut s = String::from_str("Error: ");
                s.append(m.as_str());
                s
            },
            JsonfizzError::Io(m) => {
                let mut s = String::from_str("IO error: ");
                s.append(m.as_str());
                s
            },
        }
    }
}

} // verus!
