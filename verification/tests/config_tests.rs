use jsonfizz::cli::parse_max_depth;
use jsonfizz::cli::parse_max_string_length;
use jsonfizz::cli::CliArgs;
use jsonfizz::cli::DisplayArgs;
use jsonfizz::cli::ThemeArgs;
use jsonfizz::config::Config;
use jsonfizz::config::PartialConfig;
use jsonfizz::JsonfizzError;

fn cli_args() -> CliArgs {
    CliArgs {
        files: vec![],
        display: DisplayArgs {
            indent: 4,
            sort_keys: false,
            compact: false,
            max_depth: Some(9),
            max_string_length: None,
            get: Some("a.b".to_string()),
            raw: false,
            format: "json".to_string(),
        },
        theme_args: ThemeArgs { theme: "ocean".to_string() },
    }
}

#[test]
fn defaults() {
    let c = Config::default();
    assert_eq!(c.indent, 2);
    assert!(!c.sort_keys);
    assert!(!c.compact);
    assert_eq!(c.max_depth, None);
    assert_eq!(c.max_string_length, None);
    assert_eq!(c.get, None);
    assert_eq!(c.theme, "default");
    assert!(!c.raw);
    assert_eq!(c.format, "json");
}

#[test]
fn merge_without_file_takes_the_command_line() {
    let c = Config::merge(&cli_args(), None);
    assert_eq!(c.indent, 4);
    assert_eq!(c.max_depth, Some(9));
    assert_eq!(c.get, Some("a.b".to_string()));
    assert_eq!(c.theme, "ocean");
    assert_eq!(c.format, "json");
}

#[test]
fn merge_file_settings_win() {
    let partial = PartialConfig {
        indent: Some(8),
        sort_keys: Some(true),
        max_depth: Some(3),
        max_string_length: Some(12),
        theme: Some("forest".to_string()),
        format: Some("yaml".to_string()),
    };
    let c = Config::merge(&cli_args(), Some(partial));
    assert_eq!(c.indent, 8);
    assert!(c.sort_keys);
    assert_eq!(c.max_depth, Some(3));
    assert_eq!(c.max_string_length, Some(12));
    assert_eq!(c.theme, "forest");
    assert_eq!(c.format, "yaml");
}

#[test]
fn merge_zero_limits_clear_them() {
    let partial = PartialConfig {
        indent: None,
        sort_keys: None,
        max_depth: Some(0),
        max_string_length: Some(0),
        theme: None,
        format: None,
    };
    let c = Config::merge(&cli_args(), Some(partial));
    assert_eq!(c.max_depth, None);
    assert_eq!(c.max_string_length, None);
    assert_eq!(c.theme, "ocean");
}

#[test]
fn max_depth_option_grammar() {
    assert_eq!(parse_max_depth("0").unwrap(), None);
    assert_eq!(parse_max_depth("7").unwrap(), Some(7));
    assert_eq!(parse_max_depth("+7").unwrap(), Some(7));
    assert_eq!(parse_max_depth("00").unwrap(), Some(0));
    assert_eq!(parse_max_depth("abc").unwrap_err(), "Invalid max_depth 'abc'");
    assert_eq!(parse_max_depth("-1").unwrap_err(), "Invalid max_depth '-1'");
    assert_eq!(parse_max_depth("+").unwrap_err(), "Invalid max_depth '+'");
    assert_eq!(parse_max_depth("").unwrap_err(), "Invalid max_depth ''");
    assert_eq!(
        parse_max_depth("99999999999999999999999999").unwrap_err(),
        "Invalid max_depth '99999999999999999999999999'"
    );
}

#[test]
fn max_string_length_option_grammar() {
    assert_eq!(parse_max_string_length("0").unwrap(), None);
    assert_eq!(parse_max_string_length("12").unwrap(), Some(12));
    assert_eq!(
        parse_max_string_length("x").unwrap_err(),
        "Invalid max_string_length 'x'"
    );
}

#[test]
fn exit_codes_by_kind() {
    assert_eq!(JsonfizzError::Parse {
        format: "json".to_string(),
        message: "bad".to_string(),
        loc: "".to_string(),
    }
    .exit_code(), 1);
    assert_eq!(JsonfizzError::Path("p".to_string()).exit_code(), 1);
    assert_eq!(JsonfizzError::Config("c".to_string()).exit_code(), 2);
    assert_eq!(JsonfizzError::Data("d".to_string()).exit_code(), 2);
    assert_eq!(JsonfizzError::Io("i".to_string()).exit_code(), 2);
}

#[test]
fn parse_error_renders_location() {
    let e = JsonfizzError::parse_error("json", "oops", Some(3), Some(14));
    assert_eq!(e.message(), "json parse error at line 3, column 14: oops");
    let e = JsonfizzError::parse_error("yaml", "oops", Some(3), None);
    assert_eq!(e.message(), "yaml parse error at line 3: oops");
    let e = JsonfizzError::parse_error("toml", "oops", None, Some(2));
    assert_eq!(e.message(), "toml parse error at column 2: oops");
    let e = JsonfizzError::parse_error("json", "oops", None, None);
    assert_eq!(e.message(), "json parse error: oops");
}

#[test]
fn error_messages_name_their_kind() {
    assert_eq!(JsonfizzError::Path("x".to_string()).message(), "Path error: x");
    assert_eq!(JsonfizzError::Config("x".to_string()).message(), "Config error: x");
    assert_eq!(JsonfizzError::Data("x".to_string()).message(), "Error: x");
    assert_eq!(JsonfizzError::Io("x".to_string()).message(), "IO error: x");
}
