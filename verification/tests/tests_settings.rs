use toml_path::settings::Settings;

#[test]
fn default_settings_are_raw_pretty() {
    let s = Settings::new();
    assert!(s.raw_output);
    assert!(!s.compact_output);
    assert!(!s.json_output);
    assert_eq!(s.separator.as_str(), " = ");
    assert_eq!(s.spacing.as_str(), " ");
}

#[test]
fn default_impl_matches_new() {
    let s = Settings::default();
    assert!(s.raw_output);
    assert!(!s.compact_output);
    assert!(!s.json_output);
}

#[test]
fn compact_drops_spacing() {
    let s = Settings::builder().compact_output(true).build();
    assert_eq!(s.separator.as_str(), "=");
    assert_eq!(s.spacing.as_str(), "");
}

#[test]
fn json_uses_colon_separator() {
    let s = Settings::builder().json_output(true).build();
    assert_eq!(s.separator.as_str(), " : ");
    assert!(s.json_output);
    assert!(!s.raw_output);
}

#[test]
fn compact_json_separator_is_bare_colon() {
    let s = Settings::builder().json_output(true).compact_output(true).build();
    assert_eq!(s.separator.as_str(), ":");
}

#[test]
fn json_clears_raw() {
    let s = Settings::builder().raw_output(true).json_output(true).build();
    assert!(s.json_output);
    assert!(!s.raw_output);
}

#[test]
fn raw_clears_json() {
    let s = Settings::builder().json_output(true).raw_output(true).build();
    assert!(s.raw_output);
    assert!(!s.json_output);
}
