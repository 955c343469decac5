use std::str::FromStr;
use toml_path::error::{TomlPathError, TraverseError};
use toml_path::path::TomlPath;
use toml_path::settings::Settings;
use toml_path::value::Value;
use toml_path::get;

#[test]
fn end_to_end_server_port() {
    let doc = Value::Table(vec![
        (String::from("name"), Value::Str(String::from("x"))),
        (
            String::from("server"),
            Value::Table(vec![(String::from("port"), Value::Int(80))]),
        ),
    ]);
    let path = TomlPath::from_str(".server.port").unwrap();
    let settings = Settings::new();
    let result = get(&doc, &path, &settings);
    assert_eq!(result.unwrap().as_str(), "80");
}

#[test]
fn end_to_end_range_selection() {
    let doc = Value::Table(vec![(
        String::from("values"),
        Value::Array(vec![Value::Int(10), Value::Int(20), Value::Int(30), Value::Int(40)]),
    )]);
    let path = TomlPath::from_str(".values.[1:3]").unwrap();
    let settings = Settings::new();
    let result = get(&doc, &path, &settings);
    assert_eq!(result.unwrap().as_str(), "[20, 30]");
}

#[test]
fn end_to_end_missing_key() {
    let doc = Value::Table(vec![]);
    let path = TomlPath::from_str(".missing").unwrap();
    let settings = Settings::new();
    let result = get(&doc, &path, &settings);
    assert_eq!(
        result,
        Err(TraverseError::KeyNotFound(String::from("missing")))
    );
}

#[test]
fn end_to_end_quoted_output() {
    let doc = Value::Table(vec![(String::from("name"), Value::Str(String::from("x")))]);
    let path = TomlPath::from_str(".name").unwrap();
    let settings = Settings::builder().raw_output(false).build();
    let result = get(&doc, &path, &settings);
    assert_eq!(result.unwrap().as_str(), "\"x\"");
}

#[test]
fn parse_rejects_empty_input() {
    assert_eq!(TomlPath::from_str(""), Err(TomlPathError::UnableToParse));
}

#[test]
fn parse_rejects_trailing_garbage() {
    assert_eq!(TomlPath::from_str(".a !"), Err(TomlPathError::UnableToParse));
}

#[test]
fn parse_rejects_space_after_bracket() {
    assert_eq!(TomlPath::from_str(".[1] "), Err(TomlPathError::UnableToParse));
}

#[test]
fn parse_accepts_space_inside_brackets() {
    let path = TomlPath::from_str(".[ 1 ]");
    assert!(path.is_ok());
}

#[test]
fn parse_rejects_mixed_bracket_entries() {
    assert_eq!(
        TomlPath::from_str(".[1, \"a\"]"),
        Err(TomlPathError::UnableToParse)
    );
}

#[test]
fn parse_rejects_plus_sign() {
    assert_eq!(TomlPath::from_str(".[+1]"), Err(TomlPathError::UnableToParse));
}

#[test]
fn parse_rejects_huge_number() {
    assert_eq!(
        TomlPath::from_str(".[99999999999999999999999]"),
        Err(TomlPathError::UnableToParse)
    );
}

#[test]
fn parse_rejects_empty_bracket() {
    assert_eq!(TomlPath::from_str(".[]"), Err(TomlPathError::UnableToParse));
}

#[test]
fn parse_error_message() {
    let err = TomlPath::from_str("").unwrap_err();
    assert_eq!(err.message().as_str(), "Unable to parse input str");
}

#[test]
fn parts_exposes_operations() {
    let path = TomlPath::from_str(".foo").unwrap();
    assert_eq!(path.parts().len(), 2);
}
