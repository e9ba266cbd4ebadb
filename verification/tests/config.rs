use no_redeclare::config::configured_option;
use no_redeclare::rule::NoRedeclare;

fn json(text: &str) -> serde_json::Value {
    serde_json::from_str(text).unwrap()
}

#[test]
fn option_set_to_true_turns_the_check_on() {
    assert!(NoRedeclare::from_configuration(json(r#"[{ "builtinGlobals": true }]"#)).built_in_globals());
}

#[test]
fn option_set_to_false_leaves_the_check_off() {
    assert!(!NoRedeclare::from_configuration(json(r#"[{ "builtinGlobals": false }]"#)).built_in_globals());
}

#[test]
fn configurations_of_other_shapes_leave_the_check_off() {
    for text in [
        "null",
        "true",
        "[]",
        "{}",
        "[true]",
        "[[{ \"builtinGlobals\": true }]]",
        r#"{ "builtinGlobals": true }"#,
        r#"[{}]"#,
        r#"[{ "builtinglobals": true }]"#,
        r#"[{ "builtinGlobals": "true" }]"#,
        r#"[{ "builtinGlobals": 1 }]"#,
        r#"[{ "builtinGlobals": null }]"#,
        r#"[{ "builtinGlobals": [true] }]"#,
        r#"[{}, { "builtinGlobals": true }]"#,
        r#"[null, { "builtinGlobals": true }]"#,
    ] {
        assert!(!NoRedeclare::from_configuration(json(text)).built_in_globals(), "{text}");
    }
}

#[test]
fn only_the_first_element_counts() {
    let text = r#"[{ "builtinGlobals": true, "other": 1 }, { "builtinGlobals": false }]"#;
    assert!(NoRedeclare::from_configuration(json(text)).built_in_globals());
}

#[test]
fn configured_option_tells_unset_from_false() {
    assert_eq!(configured_option(&json(r#"[{ "builtinGlobals": true }]"#)), Some(true));
    assert_eq!(configured_option(&json(r#"[{ "builtinGlobals": false }]"#)), Some(false));
    assert_eq!(configured_option(&json(r#"[{ "other": true }]"#)), None);
    assert_eq!(configured_option(&json(r#"[{ "builtinGlobals": 0 }]"#)), None);
    assert_eq!(configured_option(&json("[]")), None);
    assert_eq!(configured_option(&json(r#""builtinGlobals""#)), None);
}
