use std::str::FromStr;
use toml_path::parse::path_parts;
use toml_path::path::{Index, Op, Range, TomlPath};

#[test]
fn test_path_parts() {
    let input = ".";
    let expected = Some((vec![Op::Dot], 1));
    let result = path_parts(input, 0);
    assert_eq!(expected, result);
    assert_eq!(input.chars().count(), result.unwrap().1);
}

#[test]
fn test_toml_path_dot() {
    let input = ".";
    let expected = Ok(TomlPath {
        parts: vec![Op::Dot],
    });
    let result = TomlPath::from_str(input);
    assert_eq!(expected, result);
}

#[test]
fn test_toml_path_dot_range() {
    let input = ".[1:3]";
    let expected = Ok(TomlPath {
        parts: vec![
            Op::Dot,
            Op::BracketIndex(vec![Index::Range(Range::new(1, 3))]),
        ],
    });
    let result = TomlPath::from_str(input);
    assert_eq!(expected, result);
}

#[test]
fn test_toml_path_dot_list() {
    let input = ".[1, 2, 3]";
    let expected = Ok(TomlPath {
        parts: vec![
            Op::Dot,
            Op::BracketIndex(vec![Index::Number(1), Index::Number(2), Index::Number(3)]),
        ],
    });
    let result = TomlPath::from_str(input);
    assert_eq!(expected, result);
}

#[test]
fn test_toml_path_dot_name() {
    let input = ".foo";
    let expected = Ok(TomlPath {
        parts: vec![Op::Dot, Op::Name(String::from("foo"))],
    });
    let result = TomlPath::from_str(input);
    assert_eq!(expected, result);
}

#[test]
fn test_toml_path_dot_names() {
    let input = ".foo.bar.baz.qux";
    let expected = Ok(TomlPath {
        parts: vec![
            Op::Dot,
            Op::Name(String::from("foo")),
            Op::Dot,
            Op::Name(String::from("bar")),
            Op::Dot,
            Op::Name(String::from("baz")),
            Op::Dot,
            Op::Name(String::from("qux")),
        ],
    });
    let result = TomlPath::from_str(input);
    assert_eq!(expected, result);
}

#[test]
fn test_toml_path_dot_bracket_name() {
    let input = ".[\"foo\"]";
    let expected = Ok(TomlPath {
        parts: vec![Op::Dot, Op::BracketName(vec![String::from("foo")])],
    });
    let result = TomlPath::from_str(input);
    assert_eq!(expected, result);
}

#[test]
fn test_toml_path_dot_bracket_range() {
    let input = ".[1:3]";
    let expected = Ok(TomlPath {
        parts: vec![
            Op::Dot,
            Op::BracketIndex(vec![Index::Range(Range::new(1, 3))]),
        ],
    });
    let result = TomlPath::from_str(input);
    assert_eq!(expected, result);
}

#[test]
fn test_toml_path_dot_bracket_number() {
    let input = ".[1]";
    let expected = Ok(TomlPath {
        parts: vec![Op::Dot, Op::BracketIndex(vec![Index::Number(1)])],
    });
    let result = TomlPath::from_str(input);
    assert_eq!(expected, result);
}
