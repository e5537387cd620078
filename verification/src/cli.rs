//! The command-line surface as plain data: the argument records the
//! driver fills in, and the two option parsers that read the numeric
//! truncation settings, where a literal `"0"` means "no limit".

use vstd::prelude::*;
use vstd::string::StringExecFns;
use crate::text::spec_parse_usize;
use crate::text::parse_usize;
use crate::text::str_eq;

verus! {

/// Display settings as given on the command line.
#[derive(Debug)]
pub struct DisplayArgs {
    pub indent: usize,
    pub sort_keys: bool,
    pub compact: bool,
    pub max_depth: Option<usize>,
    pub max_string_length: Option<usize>,
    pub get: Option<String>,
    pub raw: bool,
    pub format: String,
}

/// Theme selection as given on the command line.
#[derive(Debug)]
pub struct ThemeArgs {
    pub theme: String,
}

/// Everything the command line contributes: input files and settings.
#[derive(Debug)]
pub struct CliArgs {
    pub files: Vec<String>,
    pub display: DisplayArgs,
    pub theme_args: ThemeArgs,
}

/// Reads a maximum-depth option: `"0"` disables the limit, any other
/// accepted number sets it, and anything else is rejected with a message
/// naming the input.
pub fn parse_max_depth(s: &str) -> (r: Result<Option<usize>, String>)
    ensures
        s@ == ("0")@ ==> r == Ok::<Option<usize>, String>(None::<usize>),
        s@ != ("0")@ && spec_parse_usize(s@) is Some ==> (r matches Ok(Some(n)) && n as nat
            == spec_parse_usize(s@).unwrap()),
        s@ != ("0")@ && spec_parse_usize(s@) is None ==> (r matches Err(m) && m@ == (
        "Invalid max_depth '")@ + s@ + ("'")@),
{
    if str_eq(s, "0") {
        Ok(None)
    } else {
        match parse_usize(s) {
            Some(n) => Ok(Some(n)),
            None => {
                let mut m = String::from_str("Invalid max_depth '");
                m.append(s);
                m.append("'");
                Err(m)
            },
        }
    }
}

/// Reads a maximum-string-length option, with the same grammar as
/// `parse_max_depth`.
pub fn parse_max_string_length(s: &str) -> (r: Result<Option<usize>, String>)
    ensures
        s@ == ("0")@ ==> r == Ok::<Option<usize>, String>(None::<usize>),
        s@ != ("0")@ && spec_parse_usize(s@) is Some ==> (r matches Ok(Some(n)) && n as nat
            == spec_parse_usize(s@).unwrap()),
        s@ != ("0")@ && spec_parse_usize(s@) is None ==> (r matches Err(m) && m@ == (
        "Invalid max_string_length '")@ + s@ + ("'")@),
{
    if str_eq(s, "0") {
        Ok(None)
    } else {
        match parse_usize(s) {
            Some(n) => Ok(Some(n)),
            None => {
                let mut m = String::from_str("Invalid max_string_length '");
                m.append(s);
                m.append("'");
                Err(m)
            },
        }
    }
}

} // verus!
