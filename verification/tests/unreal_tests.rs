use palboard_gateway::unreal_struct::{parse_struct, try_parse_struct, Value};

#[test]
fn mixed_properties_parse_in_order() {
    let props = parse_struct("(Difficulty=None,DayTimeSpeedRate=1.000000,ServerName=\"My Server\")");
    assert_eq!(
        props,
        vec![
            ("Difficulty".to_string(), Value::Primitive("None".to_string())),
            ("DayTimeSpeedRate".to_string(), Value::Primitive("1.000000".to_string())),
            ("ServerName".to_string(), Value::String("My Server".to_string())),
        ]
    );
}

#[test]
fn empty_struct_has_no_properties() {
    assert_eq!(parse_struct("()"), vec![]);
}

#[test]
fn quoted_value_keeps_commas_and_spaces() {
    let props = parse_struct("(a=\"x, y (z)\",b=2)");
    assert_eq!(
        props,
        vec![
            ("a".to_string(), Value::String("x, y (z)".to_string())),
            ("b".to_string(), Value::Primitive("2".to_string())),
        ]
    );
}

#[test]
fn quoted_value_may_be_empty() {
    assert_eq!(
        parse_struct("(msg=\"\")"),
        vec![("msg".to_string(), Value::String("".to_string()))]
    );
}

#[test]
fn malformed_structs_are_refused() {
    assert!(try_parse_struct("").is_none());
    assert!(try_parse_struct("a=1").is_none());
    assert!(try_parse_struct("(a=1").is_none());
    assert!(try_parse_struct("(a=)").is_none());
    assert!(try_parse_struct("(=1)").is_none());
    assert!(try_parse_struct("(a=\"unterminated)").is_none());
    assert!(try_parse_struct("(a=1,)").is_none());
    assert!(try_parse_struct("(a=1)x").is_none());
}

#[test]
fn well_formed_struct_parses_both_ways() {
    let parsed = try_parse_struct("(k=v)").unwrap();
    assert_eq!(parsed, parse_struct("(k=v)"));
}
