//! The resolved rendering configuration, and how command-line arguments
//! and an optional configuration file merge into it: the file's settings
//! win where present, and a zero limit in the file means "no limit".

use vstd::prelude::*;
use vstd::string::StringExecFns;
use crate::cli::CliArgs;

verus! {

/// Settings a configuration file may contribute; every field is
/// optional.
#[derive(Debug, Default)]
pub struct PartialConfig {
    pub indent: Option<usize>,
    pub sort_keys: Option<bool>,
    pub max_depth: Option<usize>,
    pub max_string_length: Option<usize>,
    pub theme: Option<String>,
    pub format: Option<String>,
}

/// The resolved configuration the formatter and drivers work from.
#[derive(Debug)]
pub struct Config {
    pub indent: usize,
    pub sort_keys: bool,
    pub compact: bool,
    pub max_depth: Option<usize>,
    pub max_string_length: Option<usize>,
    pub get: Option<String>,
    pub theme: String,
    pub raw: bool,
    pub format: String,
}

impl Default for Config {
    /// Two-space indent, insertion order kept, nothing truncated, the
    /// default theme, and JSON output.
    fn default() -> (c: Config)
        ensures
            c.indent == 2,
            c.sort_keys == false,
            c.compact == false,
            c.max_depth is None,
            c.max_string_length is None,
            c.get is None,
            c.theme@ == ("default")@,
            c.raw == false,
            c.format@ == ("json")@,
    {
        Config {
            indent: 2,
            sort_keys: false,
            compact: false,
            max_depth: None,
            max_string_length: None,
            get: None,
            theme: String::from_str("default"),
            raw: false,
            format: String::from_str("json"),
        }
    }
}

impl Config {
    /// Combines the command line with an optional configuration file.
    /// The command line fills every field first; a file setting then
    /// replaces it where present, and a zero `max_depth` or
    /// `max_string_length` from the file clears the limit instead.
    pub fn merge(cli: &CliArgs, partial: Option<PartialConfig>) -> (c: Config)
        ensures
            c.indent == (match partial {
                Some(p) => if p.indent is Some {
                    p.indent.unwrap()
                } else {
                    cli.display.indent
                },
                None => cli.display.indent,
            }),
            c.sort_keys == (match partial {
                Some(p) => if p.sort_keys is Some {
                    p.sort_keys.unwrap()
                } else {
                    cli.display.sort_keys
                },
                None => cli.display.sort_keys,
            }),
            c.compact == cli.display.compact,
            c.max_depth == (match partial {
                Some(p) => match p.max_depth {
                    Some(v) => if v == 0 {
                        None::<usize>
                    } else {
                        Some(v)
                    },
                    None => cli.display.max_depth,
                },
                None => cli.display.max_depth,
            }),
            c.max_string_length == (match partial {
                Some(p) => match p.max_string_length {
                    Some(v) => if v == 0 {
                        None::<usize>
                    } else {
                        Some(v)
                    },
                    None => cli.display.max_string_length,
                },
                None => cli.display.max_string_length,
            }),
            c.get is Some <==> cli.display.get is Some,
            c.get is Some ==> c.get.unwrap()@ == cli.display.get.unwrap()@,
            c.theme@ == (match partial {
                Some(p) => if p.theme is Some {
                    p.theme.unwrap()@
                } else {
                    cli.theme_args.theme@
                },
                None => cli.theme_args.theme@,
            }),
            c.raw == cli.display.raw,
            c.format@ == (match partial {
                Some(p) => if p.format is Some {
                    p.format.unwrap()@
                } else {
                    cli.display.format@
                },
                None => cli.display.format@,
            }),
    {
        let get = match &cli.display.get {
            Some(g) => Some(g.clone()),
            None => None,
        };
        let mut config = Config {
            indent: cli.display.indent,
            sort_keys: cli.display.sort_keys,
            compact: cli.display.compact,
            max_depth: cli.display.max_depth,
            max_string_length: cli.display.max_string_length,
            get,
            theme: cli.theme_args.theme.clone(),
            raw: cli.display.raw,
            format: cli.display.format.clone(),
        };
        if let Some(p) = partial {
            if let Some(v) = p.indent {
                config.indent = v;
            }
            if let Some(v) = p.sort_keys {
                config.sort_keys = v;
            }
            if let Some(v) = p.max_depth {
                config.max_depth = if v == 0 {
                    None
                } else {
                    Some(v)
                };
            }
            if let Some(v) = p.max_string_length {
                config.max_string_length = if v == 0 {
                    None
                } else {
                    Some(v)
                };
            }
            if let Some(v) = p.theme {
                config.theme = v;
            }
            if let Some(v) = p.format {
                config.format = v;
            }
        }
        config
    }
}

} // verus!
