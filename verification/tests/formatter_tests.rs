use jsonfizz::config::Config;
use jsonfizz::formatter::format_value;
use jsonfizz::theme::Theme;
use jsonfizz::value::Value;

fn obj(entries: Vec<(&str, Value)>) -> Value {
    Value::Object(entries.into_iter().map(|(k, v)| (k.to_string(), v)).collect())
}

fn s(text: &str) -> Value {
    Value::String(text.to_string())
}

fn n(text: &str) -> Value {
    Value::Number(text.to_string())
}

#[test]
fn test_format_compact() {
    let value = obj(vec![("key", s("value")), ("number", n("42"))]);
    let config = Config {
        compact: true,
        ..Default::default()
    };
    let theme = Theme::new("mono", false).unwrap();
    let result = format_value(&value, &config, &theme, 0).unwrap();
    assert_eq!(result, r#"{"key":"value","number":42}"#);
}

#[test]
fn test_format_pretty() {
    let value = obj(vec![("key", s("value"))]);
    let config = Config {
        indent: 2,
        compact: false,
        ..Default::default()
    };
    let theme = Theme::new("mono", false).unwrap();
    let result = format_value(&value, &config, &theme, 0).unwrap();
    assert!(result.contains("{\n"));
    assert!(result.contains("  \"key\": \"value\""));
    assert!(result.contains("\n}"));
}

#[test]
fn test_max_depth() {
    let value = obj(vec![("nested", obj(vec![("deep", obj(vec![("value", n("123"))]))]))]);
    let config = Config {
        max_depth: Some(2),
        ..Default::default()
    };
    let theme = Theme::new("mono", false).unwrap();
    let result = format_value(&value, &config, &theme, 0).unwrap();
    assert!(result.contains("…"));
}

#[test]
fn test_sort_keys() {
    let value = obj(vec![("z", n("1")), ("a", n("2")), ("m", n("3"))]);
    let config = Config {
        sort_keys: true,
        ..Default::default()
    };
    let theme = Theme::new("mono", false).unwrap();
    let result = format_value(&value, &config, &theme, 0).unwrap();
    // Keys should be sorted: a, m, z
    let lines: Vec<&str> = result.lines().collect();
    assert!(lines[1].contains("\"a\""));
    assert!(lines[2].contains("\"m\""));
    assert!(lines[3].contains("\"z\""));
}

#[test]
fn insertion_order_kept_without_sort_keys() {
    let value = obj(vec![("z", n("1")), ("a", n("2")), ("m", n("3"))]);
    let config = Config {
        sort_keys: false,
        ..Default::default()
    };
    let theme = Theme::new("mono", false).unwrap();
    let result = format_value(&value, &config, &theme, 0).unwrap();
    let lines: Vec<&str> = result.lines().collect();
    assert!(lines[1].contains("\"z\""));
    assert!(lines[2].contains("\"a\""));
    assert!(lines[3].contains("\"m\""));
}

#[test]
fn depth_truncation_boundary() {
    let value = obj(vec![("nested", obj(vec![("deep", obj(vec![("value", n("123"))]))]))]);
    let theme = Theme::new("mono", false).unwrap();
    let shallow = Config {
        max_depth: Some(2),
        ..Default::default()
    };
    let result = format_value(&value, &shallow, &theme, 0).unwrap();
    assert!(result.contains("…"));
    assert!(!result.contains("123"));
    let deeper = Config {
        max_depth: Some(3),
        ..Default::default()
    };
    let result = format_value(&value, &deeper, &theme, 0).unwrap();
    assert!(result.contains("123"));
}

#[test]
fn string_truncation_display_length() {
    let value = s("abcdefghij");
    let config = Config {
        max_string_length: Some(5),
        ..Default::default()
    };
    let theme = Theme::new("mono", false).unwrap();
    let result = format_value(&value, &config, &theme, 0).unwrap();
    assert_eq!(result, "\"abcd…\"");
    assert_eq!(result.chars().count(), 7); // five shown characters plus the quotes
}

#[test]
fn string_within_limit_untouched() {
    let value = s("abc");
    let config = Config {
        max_string_length: Some(5),
        ..Default::default()
    };
    let theme = Theme::new("mono", false).unwrap();
    let result = format_value(&value, &config, &theme, 0).unwrap();
    assert_eq!(result, "\"abc\"");
}

#[test]
fn zero_indent_still_multiline() {
    let value = obj(vec![("k", n("1"))]);
    let config = Config {
        indent: 0,
        ..Default::default()
    };
    let theme = Theme::new("mono", false).unwrap();
    let result = format_value(&value, &config, &theme, 0).unwrap();
    assert_eq!(result, "{\n\"k\": 1\n}");
}

#[test]
fn empty_containers() {
    let theme = Theme::new("mono", false).unwrap();
    let config = Config::default();
    let arr = format_value(&Value::Array(vec![]), &config, &theme, 0).unwrap();
    assert_eq!(arr, "[\n\n]");
    let empty = format_value(&obj(vec![]), &config, &theme, 0).unwrap();
    assert_eq!(empty, "{\n\n}");
}

#[test]
fn scalars_render_as_literals() {
    let theme = Theme::new("mono", false).unwrap();
    let config = Config::default();
    assert_eq!(format_value(&Value::Null, &config, &theme, 0).unwrap(), "null");
    assert_eq!(format_value(&Value::Bool(true), &config, &theme, 0).unwrap(), "true");
    assert_eq!(format_value(&Value::Bool(false), &config, &theme, 0).unwrap(), "false");
    assert_eq!(format_value(&n("3.25"), &config, &theme, 0).unwrap(), "3.25");
}

#[test]
fn styled_output_wraps_tokens() {
    let theme = Theme::new("default", false).unwrap();
    let config = Config::default();
    let result = format_value(&Value::Null, &config, &theme, 0).unwrap();
    assert_eq!(result, "\u{1b}[90mnull\u{1b}[0m");
    let compact_config = Config {
        compact: true,
        ..Default::default()
    };
    // Compact mode ignores styling entirely.
    let compact = format_value(&Value::Null, &compact_config, &theme, 0).unwrap();
    assert_eq!(compact, "null");
}

#[test]
fn compact_ignores_sort_and_truncation() {
    let value = obj(vec![("z", s("abcdefghij")), ("a", n("1"))]);
    let config = Config {
        compact: true,
        sort_keys: true,
        max_depth: Some(0),
        max_string_length: Some(3),
        ..Default::default()
    };
    let theme = Theme::new("default", false).unwrap();
    let result = format_value(&value, &config, &theme, 0).unwrap();
    assert_eq!(result, r#"{"z":"abcdefghij","a":1}"#);
}
