use toml_path::format::format_value;
use toml_path::settings::Settings;
use toml_path::value::Value;

#[test]
fn string_quoted_when_raw_off() {
    let settings = Settings::builder().raw_output(false).build();
    let v = Value::Str(String::from("abc"));
    assert_eq!(format_value(&v, &settings).as_str(), "\"abc\"");
}

#[test]
fn string_verbatim_when_raw_on() {
    let settings = Settings::builder().raw_output(true).build();
    let v = Value::Str(String::from("abc"));
    assert_eq!(format_value(&v, &settings).as_str(), "abc");
}

#[test]
fn integers_render_canonically() {
    let settings = Settings::new();
    assert_eq!(format_value(&Value::Int(80), &settings).as_str(), "80");
    assert_eq!(format_value(&Value::Int(0), &settings).as_str(), "0");
    assert_eq!(format_value(&Value::Int(-42), &settings).as_str(), "-42");
    assert_eq!(
        format_value(&Value::Int(i64::MAX), &settings).as_str(),
        "9223372036854775807"
    );
    assert_eq!(
        format_value(&Value::Int(i64::MIN), &settings).as_str(),
        "-9223372036854775808"
    );
}

#[test]
fn booleans_render_canonically() {
    let settings = Settings::new();
    assert_eq!(format_value(&Value::Bool(true), &settings).as_str(), "true");
    assert_eq!(format_value(&Value::Bool(false), &settings).as_str(), "false");
}

#[test]
fn float_and_datetime_text_pass_through() {
    let settings = Settings::new();
    assert_eq!(
        format_value(&Value::Float(String::from("1.5")), &settings).as_str(),
        "1.5"
    );
    assert_eq!(
        format_value(&Value::Datetime(String::from("1979-05-27T07:32:00Z")), &settings).as_str(),
        "1979-05-27T07:32:00Z"
    );
}

#[test]
fn empty_array_renders_as_brackets() {
    let settings = Settings::new();
    assert_eq!(format_value(&Value::Array(vec![]), &settings).as_str(), "[]");
}

#[test]
fn single_element_array_has_no_comma() {
    let settings = Settings::new();
    let v = Value::Array(vec![Value::Int(1)]);
    assert_eq!(format_value(&v, &settings).as_str(), "[1]");
}

#[test]
fn array_elements_joined_with_spacing() {
    let settings = Settings::new();
    let v = Value::Array(vec![Value::Int(20), Value::Int(30)]);
    assert_eq!(format_value(&v, &settings).as_str(), "[20, 30]");
}

#[test]
fn compact_array_has_no_spacing() {
    let settings = Settings::builder().compact_output(true).build();
    let v = Value::Array(vec![Value::Int(20), Value::Int(30)]);
    assert_eq!(format_value(&v, &settings).as_str(), "[20,30]");
}

#[test]
fn pretty_table_emits_headers_at_top_level() {
    let settings = Settings::new();
    let v = Value::Table(vec![(
        String::from("server"),
        Value::Table(vec![(String::from("port"), Value::Int(80))]),
    )]);
    assert_eq!(
        format_value(&v, &settings).as_str(),
        "[server]\nport = 80\n\n"
    );
}

#[test]
fn depth_collapses_to_flat_braces() {
    let settings = Settings::new();
    let v = Value::Table(vec![(
        String::from("a"),
        Value::Table(vec![(
            String::from("b"),
            Value::Table(vec![(String::from("c"), Value::Int(1))]),
        )]),
    )]);
    assert_eq!(
        format_value(&v, &settings).as_str(),
        "[a]\nb = {c = 1}\n\n"
    );
}

#[test]
fn compact_table_is_flat_at_any_depth() {
    let settings = Settings::builder().compact_output(true).build();
    let v = Value::Table(vec![
        (String::from("a"), Value::Int(1)),
        (String::from("b"), Value::Int(2)),
    ]);
    assert_eq!(format_value(&v, &settings).as_str(), "{a=1,b=2}");
}

#[test]
fn json_table_uses_colon_and_quotes() {
    let settings = Settings::builder().json_output(true).build();
    let v = Value::Table(vec![(String::from("k"), Value::Str(String::from("v")))]);
    assert_eq!(format_value(&v, &settings).as_str(), "{\"k\" : \"v\"}");
}

#[test]
fn empty_table_flat_renders_as_braces() {
    let settings = Settings::builder().compact_output(true).build();
    assert_eq!(format_value(&Value::Table(vec![]), &settings).as_str(), "{}");
}

#[test]
fn empty_table_pretty_renders_as_nothing() {
    let settings = Settings::new();
    assert_eq!(format_value(&Value::Table(vec![]), &settings).as_str(), "");
}

#[test]
fn table_keys_follow_insertion_order() {
    let settings = Settings::builder().compact_output(true).build();
    let v = Value::Table(vec![
        (String::from("z"), Value::Int(1)),
        (String::from("a"), Value::Int(2)),
    ]);
    assert_eq!(format_value(&v, &settings).as_str(), "{z=1,a=2}");
}

#[test]
fn quoted_string_is_not_escaped() {
    let settings = Settings::builder().raw_output(false).build();
    let v = Value::Str(String::from("say \"hi\""));
    assert_eq!(format_value(&v, &settings).as_str(), "\"say \"hi\"\"");
}
