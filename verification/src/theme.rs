//! Themes: a fixed table from the six token kinds to terminal styles,
//! selected case-insensitively by name from a closed set of eleven
//! palettes, with a styleless fallback for raw output.

use vstd::prelude::*;
use vstd::string::StringExecFns;
use crate::error::JsonfizzError;
use crate::text::dec_nat;
use crate::text::dec_usize;
use crate::text::lower_seq;
use crate::text::push_char;
use crate::text::str_eq;
use crate::text::to_lower;

verus! {

/// The six semantic categories a rendered token can belong to.
#[derive(Debug, Clone, Copy, PartialEq, Eq)]
pub enum TokenKind {
    Key,
    String,
    Number,
    Bool,
    Null,
    Punctuation,
}

/// A display style: either no decoration, or the ANSI SGR code of a
/// foreground color.
#[derive(Debug, Clone, Copy, PartialEq, Eq)]
pub struct Style {
    pub code: Option<u8>,
}

/// A fixed mapping from each token kind to a style.
#[derive(Debug, Clone, Copy, PartialEq, Eq)]
pub struct Theme {
    pub key: Style,
    pub string: Style,
    pub number: Style,
    pub boolean: Style,
    pub null: Style,
    pub punctuation: Style,
}

/// The style a theme assigns to a token kind.
pub open spec fn style_of(t: Theme, k: TokenKind) -> Style {
    match k {
        TokenKind::Key => t.key,
        TokenKind::String => t.string,
        TokenKind::Number => t.number,
        TokenKind::Bool => t.boolean,
        TokenKind::Null => t.null,
        TokenKind::Punctuation => t.punctuation,
    }
}

/// Text wrapped in a style: unchanged when the style is plain, else
/// preceded by the SGR color sequence and followed by the reset sequence.
pub open spec fn spec_style_wrap(st: Style, s: Seq<char>) -> Seq<char> {
    match st.code {
        Option::Some(c) => seq!['\u{1b}', '['] + dec_nat(c as nat) + seq!['m'] + s + seq![
            '\u{1b}',
            '[',
            '0',
            'm',
        ],
        Option::None => s,
    }
}

/// Text styled with the theme's style for the given token kind.
pub open spec fn spec_colorize(s: Seq<char>, k: TokenKind, t: Theme) -> Seq<char> {
    spec_style_wrap(style_of(t, k), s)
}

/// Wraps a token in the theme's style for its kind.
pub fn colorize(s: &str, kind: TokenKind, theme: &Theme) -> (r: String)
    ensures
        r@ == spec_colorize(s@, kind, *theme),
{
    let st = match kind {
        TokenKind::Key => theme.key,
        TokenKind::String => theme.string,
        TokenKind::Number => theme.number,
        TokenKind::Bool => theme.boolean,
        TokenKind::Null => theme.null,
        TokenKind::Punctuation => theme.punctuation,
    };
    match st.code {
        Option::Some(c) => {
            let mut out = String::new();
            push_char(&mut out, '\u{1b}');
            push_char(&mut out, '[');
            let digits = dec_usize(c as usize);
            out.append(digits.as_str());
            push_char(&mut out, 'm');
            out.append(s);
            push_char(&mut out, '\u{1b}');
            push_char(&mut out, '[');
            push_char(&mut out, '0');
            push_char(&mut out, 'm');
            proof {
                assert(out@ =~= spec_style_wrap(st, s@));
            }
            out
        },
        Option::None => String::from_str(s),
    }
}

/// The theme with no decoration on any token kind; raw mode uses it, and
/// so does the palette named `mono`.
pub open spec fn plain_theme() -> Theme {
    Theme {
        key: Style { code: None },
        string: Style { code: None },
        number: Style { code: None },
        boolean: Style { code: None },
        null: Style { code: None },
        punctuation: Style { code: None },
    }
}

/// The palette selected by each (lower-case) theme name, or `None` for a
/// name outside the closed set.
pub open spec fn spec_theme_of(n: Seq<char>) -> Option<Theme> {
    if n == ("default")@ {
        Some(
            Theme {
                key: Style { code: Some(33u8) },
                string: Style { code: Some(32u8) },
                number: Style { code: Some(36u8) },
                boolean: Style { code: Some(35u8) },
                null: Style { code: Some(90u8) },
                punctuation: Style { code: Some(37u8) },
            },
        )
    } else if n == ("solarized")@ {
        Some(
            Theme {
                key: Style { code: Some(33u8) },
                string: Style { code: Some(32u8) },
                number: Style { code: Some(34u8) },
                boolean: Style { code: Some(35u8) },
                null: Style { code: Some(90u8) },
                punctuation: Style { code: Some(37u8) },
            },
        )
    } else if n == ("mono")@ {
        Some(plain_theme())
    } else if n == ("rainbow")@ {
        Some(
            Theme {
                key: Style { code: Some(31u8) },
                string: Style { code: Some(33u8) },
                number: Style { code: Some(32u8) },
                boolean: Style { code: Some(36u8) },
                null: Style { code: Some(34u8) },
                punctuation: Style { code: Some(35u8) },
            },
        )
    } else if n == ("ocean")@ {
        Some(
            Theme {
                key: Style { code: Some(36u8) },
                string: Style { code: Some(34u8) },
                number: Style { code: Some(96u8) },
                boolean: Style { code: Some(94u8) },
                null: Style { code: Some(90u8) },
                punctuation: Style { code: Some(37u8) },
            },
        )
    } else if n == ("forest")@ {
        Some(
            Theme {
                key: Style { code: Some(32u8) },
                string: Style { code: Some(92u8) },
                number: Style { code: Some(33u8) },
                boolean: Style { code: Some(35u8) },
                null: Style { code: Some(90u8) },
                punctuation: Style { code: Some(37u8) },
            },
        )
    } else if n == ("pastel")@ {
        Some(
            Theme {
                key: Style { code: Some(95u8) },
                string: Style { code: Some(96u8) },
                number: Style { code: Some(93u8) },
                boolean: Style { code: Some(92u8) },
                null: Style { code: Some(90u8) },
                punctuation: Style { code: Some(97u8) },
            },
        )
    } else if n == ("sakura")@ {
        Some(
            Theme {
                key: Style { code: Some(95u8) },
                string: Style { code: Some(91u8) },
                number: Style { code: Some(93u8) },
                boolean: Style { code: Some(96u8) },
                null: Style { code: Some(90u8) },
                punctuation: Style { code: Some(37u8) },
            },
        )
    } else if n == ("cyberpunk")@ {
        Some(
            Theme {
                key: Style { code: Some(95u8) },
                string: Style { code: Some(96u8) },
                number: Style { code: Some(92u8) },
                boolean: Style { code: Some(91u8) },
                null: Style { code: Some(90u8) },
                punctuation: Style { code: Some(93u8) },
            },
        )
    } else if n == ("ghibli")@ {
        Some(
            Theme {
                key: Style { code: Some(92u8) },
                string: Style { code: Some(96u8) },
                number: Style { code: Some(95u8) },
                boolean: Style { code: Some(94u8) },
                null: Style { code: Some(90u8) },
                punctuation: Style { code: Some(97u8) },
            },
        )
    } else if n == ("evangelion")@ {
        Some(
            Theme {
                key: Style { code: Some(35u8) },
                string: Style { code: Some(92u8) },
                number: Style { code: Some(91u8) },
                boolean: Style { code: Some(94u8) },
                null: Style { code: Some(90u8) },
                punctuation: Style { code: Some(96u8) },
            },
        )
    } else {
        None
    }
}

/// Whether a (lower-case) name belongs to the closed set of theme names.
pub open spec fn is_theme_name(n: Seq<char>) -> bool {
    spec_theme_of(n) is Some
}

/// The message reported for a name outside the closed set.
pub open spec fn spec_unknown_theme_msg(name: Seq<char>) -> Seq<char> {
    "Unknown theme '"@ + name
        + "'. Use: default, solarized, mono, rainbow, ocean, forest, pastel, sakura, cyberpunk, ghibli, evangelion"@
}

impl Theme {
    /// Selects a palette by name, case-insensitively. Raw mode yields the
    /// styleless theme whatever the name; otherwise a name outside the
    /// closed set is a configuration error.
    pub fn new(name: &str, raw: bool) -> (r: Result<Theme, JsonfizzError>)
        ensures
            raw ==> r == Ok::<Theme, JsonfizzError>(plain_theme()),
            !raw && is_theme_name(lower_seq(name@)) ==> r == Ok::<Theme, JsonfizzError>(
                spec_theme_of(lower_seq(name@)).unwrap(),
            ),
            !raw && !is_theme_name(lower_seq(name@)) ==> (r matches Err(
                JsonfizzError::Config(m),
            ) && m@ == spec_unknown_theme_msg(name@)),
    {
        if raw {
            return Ok(
                Theme {
                    key: Style { code: None },
                    string: Style { code: None },
                    number: Style { code: None },
                    boolean: Style { code: None },
                    null: Style { code: None },
                    punctuation: Style { code: None },
                },
            );
        }
        let lowered = to_lower(name);
        let l = lowered.as_str();
        if str_eq(l, "default") {
            Ok(
                Theme {
                    key: Style { code: Some(33) },
                    string: Style { code: Some(32) },
                    number: Style { code: Some(36) },
                    boolean: Style { code: Some(35) },
                    null: Style { code: Some(90) },
                    punctuation: Style { code: Some(37) },
                },
            )
        } else if str_eq(l, "solarized") {
            Ok(
                Theme {
                    key: Style { code: Some(33) },
                    string: Style { code: Some(32) },
                    number: Style { code: Some(34) },
                    boolean: Style { code: Some(35) },
                    null: Style { code: Some(90) },
                    punctuation: Style { code: Some(37) },
                },
            )
        } else if str_eq(l, "mono") {
            Ok(
                Theme {
                    key: Style { code: None },
                    string: Style { code: None },
                    number: Style { code: None },
                    boolean: Style { code: None },
                    null: Style { code: None },
                    punctuation: Style { code: None },
                },
            )
        } else if str_eq(l, "rainbow") {
            Ok(
                Theme {
                    key: Style { code: Some(31) },
                    string: Style { code: Some(33) },
                    number: Style { code: Some(32) },
                    boolean: Style { code: Some(36) },
                    null: Style { code: Some(34) },
                    punctuation: Style { code: Some(35) },
                },
            )
        } else if str_eq(l, "ocean") {
            Ok(
                Theme {
                    key: Style { code: Some(36) },
                    string: Style { code: Some(34) },
                    number: Style { code: Some(96) },
                    boolean: Style { code: Some(94) },
                    null: Style { code: Some(90) },
                    punctuation: Style { code: Some(37) },
                },
            )
        } else if str_eq(l, "forest") {
            Ok(
                Theme {
                    key: Style { code: Some(32) },
                    string: Style { code: Some(92) },
                    number: Style { code: Some(33) },
                    boolean: Style { code: Some(35) },
                    null: Style { code: Some(90) },
                    punctuation: Style { code: Some(37) },
                },
            )
        } else if str_eq(l, "pastel") {
            Ok(
                Theme {
                    key: Style { code: Some(95) },
                    string: Style { code: Some(96) },
                    number: Style { code: Some(93) },
                    boolean: Style { code: Some(92) },
                    null: Style { code: Some(90) },
                    punctuation: Style { code: Some(97) },
                },
            )
        } else if str_eq(l, "sakura") {
            Ok(
                Theme {
                    key: Style { code: Some(95) },
                    string: Style { code: Some(91) },
                    number: Style { code: Some(93) },
                    boolean: Style { code: Some(96) },
                    null: Style { code: Some(90) },
                    punctuation: Style { code: Some(37) },
                },
            )
        } else if str_eq(l, "cyberpunk") {
            Ok(
                Theme {
                    key: Style { code: Some(95) },
                    string: Style { code: Some(96) },
                    number: Style { code: Some(92) },
                    boolean: Style { code: Some(91) },
                    null: Style { code: Some(90) },
                    punctuation: Style { code: Some(93) },
                },
            )
        } else if str_eq(l, "ghibli") {
            Ok(
                Theme {
                    key: Style { code: Some(92) },
                    string: Style { code: Some(96) },
                    number: Style { code: Some(95) },
                    boolean: Style { code: Some(94) },
                    null: Style { code: Some(90) },
                    punctuation: Style { code: Some(97) },
                },
            )
        } else if str_eq(l, "evangelion") {
            Ok(
                Theme {
                    key: Style { code: Some(35) },
                    string: Style { code: Some(92) },
                    number: Style { code: Some(91) },
                    boolean: Style { code: Some(94) },
                    null: Style { code: Some(90) },
                    punctuation: Style { code: Some(96) },
                },
            )
        } else {
            let mut msg = String::from_str("Unknown theme '");
            msg.append(name);
            msg.append(
                "'. Use: default, solarized, mono, rainbow, ocean, forest, pastel, sakura, cyberpunk, ghibli, evangelion",
            );
            Err(JsonfizzError::Config(msg))
        }
    }
}

/// Two distinct names of the closed set always select distinct palettes:
/// the six-entry style tables differ in at least one entry.
pub proof fn law_theme_names_distinct(a: Seq<char>, b: Seq<char>)
    requires
        is_theme_name(a),
        is_theme_name(b),
        a != b,
    ensures
        spec_theme_of(a) != spec_theme_of(b),
{
}

} // verus!
