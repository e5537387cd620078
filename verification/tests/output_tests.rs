use jsonfizz::config::Config;
use jsonfizz::formatter::format_value;
use jsonfizz::output::convert_to_csv;
use jsonfizz::output::format_output;
use jsonfizz::theme::Theme;
use jsonfizz::value::Value;
use jsonfizz::JsonfizzError;

fn obj(entries: Vec<(&str, Value)>) -> Value {
    Value::Object(entries.into_iter().map(|(k, v)| (k.to_string(), v)).collect())
}

fn s(text: &str) -> Value {
    Value::String(text.to_string())
}

fn n(text: &str) -> Value {
    Value::Number(text.to_string())
}

fn config_for(format: &str) -> Config {
    Config {
        indent: 2,
        sort_keys: false,
        compact: false,
        max_depth: None,
        max_string_length: None,
        get: None,
        theme: "mono".to_string(),
        raw: false,
        format: format.to_string(),
    }
}

#[test]
fn test_format_yaml() {
    let value = obj(vec![("name", s("test")), ("version", n("1.0"))]);
    let config = config_for("yaml");
    let theme = Theme::new("mono", false).unwrap();
    let result = format_output(&value, &config, &theme).unwrap();
    assert!(result.contains("name: test"));
    assert!(result.contains("version: 1.0"));
}

#[test]
fn test_format_toml() {
    let value = obj(vec![("name", s("test")), ("version", n("1.0"))]);
    let config = config_for("toml");
    let theme = Theme::new("mono", false).unwrap();
    let result = format_output(&value, &config, &theme).unwrap();
    assert!(result.contains("name = \"test\""));
    assert!(result.contains("version = 1.0"));
}

#[test]
fn test_format_csv() {
    let value = Value::Array(vec![
        obj(vec![("name", s("Alice")), ("age", n("30")), ("city", s("NYC"))]),
        obj(vec![("name", s("Bob")), ("age", n("25")), ("city", s("LA"))]),
    ]);
    let config = config_for("csv");
    let theme = Theme::new("mono", false).unwrap();
    let result = format_output(&value, &config, &theme).unwrap();
    assert!(result.contains("age,city,name"));
    assert!(result.contains("30,NYC,Alice"));
    assert!(result.contains("25,LA,Bob"));
}

#[test]
fn test_format_unsupported() {
    let value = obj(vec![("test", s("value"))]);
    let config = Config {
        format: "xml".to_string(),
        ..Default::default()
    };
    let theme = Theme::new("mono", false).unwrap();
    let result = format_output(&value, &config, &theme);
    assert!(result.is_err());
    assert!(result.unwrap_err().message().contains("Unsupported format"));
}

#[test]
fn json_output_goes_through_the_formatter() {
    let value = obj(vec![("key", s("value"))]);
    let config = config_for("json");
    let theme = Theme::new("mono", false).unwrap();
    let result = format_output(&value, &config, &theme).unwrap();
    assert_eq!(result, "{\n  \"key\": \"value\"\n}");
}

#[test]
fn csv_of_empty_array_is_empty() {
    let config = config_for("csv");
    let theme = Theme::new("mono", false).unwrap();
    let result = format_output(&Value::Array(vec![]), &config, &theme).unwrap();
    assert_eq!(result, "");
}

#[test]
fn csv_of_non_array_is_an_error() {
    let config = config_for("csv");
    let theme = Theme::new("mono", false).unwrap();
    let result = format_output(&obj(vec![("a", n("1"))]), &config, &theme);
    match result {
        Err(JsonfizzError::Data(m)) => {
            assert_eq!(m, "CSV output requires a JSON array of objects")
        },
        other => panic!("expected a data error, got {:?}", other),
    }
}

#[test]
fn csv_missing_keys_give_empty_cells() {
    let value = Value::Array(vec![
        obj(vec![("b", n("1"))]),
        obj(vec![("a", s("x")), ("b", Value::Bool(true))]),
        n("9"),
    ]);
    let config = config_for("csv");
    let theme = Theme::new("mono", false).unwrap();
    let result = format_output(&value, &config, &theme).unwrap();
    assert_eq!(result, "a,b\n,1\nx,true\n");
}

fn parse_back(text: &str) -> serde_json::Value {
    serde_json::from_str(text).unwrap()
}

fn render_compact(v: &Value) -> String {
    let config = Config {
        compact: true,
        ..Default::default()
    };
    let theme = Theme::new("mono", false).unwrap();
    format_value(v, &config, &theme, 0).unwrap()
}

#[test]
fn compact_round_trip_nested() {
    let value = obj(vec![
        ("key", s("value")),
        ("list", Value::Array(vec![n("1"), Value::Null, Value::Bool(false)])),
        ("inner", obj(vec![("x", n("2.5"))])),
    ]);
    let rendered = render_compact(&value);
    let expected = parse_back(r#"{"key":"value","list":[1,null,false],"inner":{"x":2.5}}"#);
    assert_eq!(parse_back(&rendered), expected);
}

#[test]
fn compact_round_trip_escapes() {
    let value = obj(vec![("text", s("a\"b\\c\nd\te\u{1}f…"))]);
    let rendered = render_compact(&value);
    let parsed = parse_back(&rendered);
    assert_eq!(parsed["text"].as_str().unwrap(), "a\"b\\c\nd\te\u{1}f…");
}

#[test]
fn compact_round_trip_empty_containers() {
    let value = obj(vec![("a", Value::Array(vec![])), ("o", obj(vec![])), ("s", s(""))]);
    let rendered = render_compact(&value);
    assert_eq!(rendered, r#"{"a":[],"o":{},"s":""}"#);
    let parsed = parse_back(&rendered);
    assert_eq!(parsed, parse_back(r#"{"a":[],"o":{},"s":""}"#));
}

#[test]
fn compact_round_trip_numbers_and_unicode_keys() {
    let value = obj(vec![
        ("π", n("-12")),
        ("exp", n("1.5e3")),
        ("zero", n("0")),
        ("née", s("Ω…")),
    ]);
    let rendered = render_compact(&value);
    let parsed = parse_back(&rendered);
    assert_eq!(parsed["π"].as_i64().unwrap(), -12);
    assert_eq!(parsed["exp"].as_f64().unwrap(), 1500.0);
    assert_eq!(parsed["zero"].as_i64().unwrap(), 0);
    assert_eq!(parsed["née"].as_str().unwrap(), "Ω…");
}

#[test]
fn sorted_json_through_format_output() {
    let value = obj(vec![("z", n("1")), ("a", obj(vec![("q", n("2")), ("b", n("3"))]))]);
    let mut config = config_for("json");
    config.sort_keys = true;
    let theme = Theme::new("mono", false).unwrap();
    let result = format_output(&value, &config, &theme).unwrap();
    // Sorting reaches every nesting level.
    assert_eq!(
        result,
        "{\n  \"a\": {\n    \"b\": 3,\n    \"q\": 2\n  },\n  \"z\": 1\n}"
    );
}

#[test]
fn yaml_treats_value_not_text() {
    // The serializer receives a real document: the output is YAML, not
    // the JSON text it was handed.
    let value = obj(vec![("outer", obj(vec![("inner", n("3"))]))]);
    let config = config_for("yaml");
    let theme = Theme::new("mono", false).unwrap();
    let result = format_output(&value, &config, &theme).unwrap();
    assert!(result.contains("outer:"));
    assert!(result.contains("inner: 3"));
    assert!(!result.contains("{"));
}
