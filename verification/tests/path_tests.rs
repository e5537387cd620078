use jsonfizz::path::parse_path;
use jsonfizz::value::clone_value;
use jsonfizz::path::resolve;
use jsonfizz::path::PathSegment;
use jsonfizz::value::Value;
use jsonfizz::JsonfizzError;

fn obj(entries: Vec<(&str, Value)>) -> Value {
    Value::Object(entries.into_iter().map(|(k, v)| (k.to_string(), v)).collect())
}

fn s(text: &str) -> Value {
    Value::String(text.to_string())
}

fn n(text: &str) -> Value {
    Value::Number(text.to_string())
}

fn path_message(r: Result<Value, JsonfizzError>) -> String {
    match r {
        Err(JsonfizzError::Path(m)) => m,
        other => panic!("expected a path error, got {:?}", other),
    }
}

#[test]
fn test_parse_path() {
    assert_eq!(
        parse_path("data.items[0].id").unwrap(),
        vec![
            PathSegment::Key("data".to_string()),
            PathSegment::Key("items".to_string()),
            PathSegment::Index(0),
            PathSegment::Key("id".to_string()),
        ]
    );
}

#[test]
fn test_resolve() {
    let value = obj(vec![("data", obj(vec![("items", Value::Array(vec![obj(vec![(
        "id",
        s("foo"),
    )])]))]))]);
    let path = parse_path("data.items[0].id").unwrap();
    assert_eq!(resolve(&value, &path).unwrap(), s("foo"));
}

#[test]
fn resolve_equals_manual_navigation() {
    // Walking "a.b[0].c" is the same as looking the steps up one by one.
    let leaf = n("7");
    let value = obj(vec![("a", obj(vec![("b", Value::Array(vec![obj(vec![("c", n("7"))])]))]))]);
    let path = parse_path("a.b[0].c").unwrap();
    let resolved = resolve(&value, &path).unwrap();
    let manual = match &value {
        Value::Object(o) => match &o[0].1 {
            Value::Object(inner) => match &inner[0].1 {
                Value::Array(items) => match &items[0] {
                    Value::Object(last) => clone_value(&last[0].1),
                    _ => panic!(),
                },
                _ => panic!(),
            },
            _ => panic!(),
        },
        _ => panic!(),
    };
    assert_eq!(resolved, manual);
    assert_eq!(resolved, leaf);
}

#[test]
fn empty_path_returns_root() {
    let value = obj(vec![("a", n("1"))]);
    let path = parse_path("").unwrap();
    assert_eq!(path, vec![PathSegment::Key("".to_string())]);
    let whole = resolve(&value, &vec![]).unwrap();
    assert_eq!(whole, obj(vec![("a", n("1"))]));
}

#[test]
fn key_not_found_names_key() {
    let value = obj(vec![("a", n("1"))]);
    let path = parse_path("b").unwrap();
    let m = path_message(resolve(&value, &path));
    assert_eq!(m, "Key 'b' not found");
}

#[test]
fn index_out_of_bounds_names_index_and_len() {
    let value = obj(vec![("a", Value::Array(vec![n("1"), n("2")]))]);
    let path = parse_path("a[5]").unwrap();
    let m = path_message(resolve(&value, &path));
    assert_eq!(m, "Index 5 out of bounds (len 2)");
}

#[test]
fn expected_array_names_scalar() {
    let value = obj(vec![("a", n("1"))]);
    let path = parse_path("a[0]").unwrap();
    let m = path_message(resolve(&value, &path));
    assert_eq!(m, "Expected array for index 0, found 1");
}

#[test]
fn expected_object_names_value() {
    let value = Value::Array(vec![n("1")]);
    let path = parse_path("a").unwrap();
    let m = path_message(resolve(&value, &path));
    assert_eq!(m, "Expected object for key 'a', found [1]");
}

#[test]
fn invalid_index_is_a_path_error() {
    let err = parse_path("a[x]").unwrap_err();
    match err {
        JsonfizzError::Path(m) => assert_eq!(m, "Invalid index 'x' in path 'a[x]'"),
        other => panic!("expected a path error, got {:?}", other),
    }
}

#[test]
fn bracket_without_key_portion() {
    assert_eq!(
        parse_path("[2]").unwrap(),
        vec![PathSegment::Key("".to_string()), PathSegment::Index(2)]
    );
}

#[test]
fn part_without_closing_bracket_is_a_key() {
    assert_eq!(parse_path("a[").unwrap(), vec![PathSegment::Key("a[".to_string())]);
}

#[test]
fn resolved_value_is_independent() {
    let value = obj(vec![("a", Value::Array(vec![n("1")]))]);
    let path = parse_path("a").unwrap();
    let extracted = resolve(&value, &path).unwrap();
    drop(value);
    assert_eq!(extracted, Value::Array(vec![n("1")]));
}
