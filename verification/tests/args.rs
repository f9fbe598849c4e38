use libmll::args::{Args, Parameters};
use libmll::marshal::JsonValue;

#[test]
fn test_split_key_value() {
    let (k, v) = Args::split_key_value("key=value");
    assert_eq!(k, "key");
    assert_eq!(v, "value");

    let (k, v) = Args::split_key_value("key=value=1");
    assert_eq!(k, "key");
    assert_eq!(v, "value=1");
}

#[test]
fn split_key_value_keeps_empty_sides() {
    let (k, v) = Args::split_key_value("key=");
    assert_eq!(k, "key");
    assert_eq!(v, "");

    let (k, v) = Args::split_key_value("=value");
    assert_eq!(k, "");
    assert_eq!(v, "value");

    let (k, v) = Args::split_key_value("名前=値=2");
    assert_eq!(k, "名前");
    assert_eq!(v, "値=2");
}

fn args(template: Option<&str>, parameter: Option<&str>, output: Option<&str>, params: &[&str]) -> Args {
    Args {
        template: template.map(|s| s.to_string()),
        parameter: parameter.map(|s| s.to_string()),
        output: output.map(|s| s.to_string()),
        params: params.iter().map(|s| s.to_string()).collect(),
    }
}

#[test]
fn passed_flags_follow_the_fields() {
    let none = args(None, None, None, &[]);
    assert!(!none.is_template_passed());
    assert!(!none.is_parameter_passed());
    assert!(!none.is_output_passed());
    assert!(!none.is_parameters_passed());

    let empty = args(Some(""), Some(""), Some(""), &[]);
    assert!(!empty.is_template_passed());
    assert!(!empty.is_parameter_passed());
    assert!(!empty.is_output_passed());

    let all = args(Some("t.liquid"), Some("p.json"), Some("o.json"), &["a=b"]);
    assert!(all.is_template_passed());
    assert!(all.is_parameter_passed());
    assert!(all.is_output_passed());
    assert!(all.is_parameters_passed());
    assert_eq!(all.get_template_file_path(), "t.liquid");
    assert_eq!(all.get_parameter_file_path(), "p.json");
    assert_eq!(all.get_output_file_path(), "o.json");
}

fn text_of(value: &JsonValue) -> String {
    match value {
        JsonValue::Text(s) => s.clone(),
        _ => panic!("not a string"),
    }
}

#[test]
fn parameters_from_the_command_line() {
    let given = args(None, None, None, &["a=1", "b=x=y"]);
    let parameters = given.make_parameters_from_params();
    assert_eq!(parameters.map.len(), 2);
    assert_eq!(parameters.map[0].0, "a");
    assert_eq!(text_of(&parameters.map[0].1), "1");
    assert_eq!(parameters.map[1].0, "b");
    assert_eq!(text_of(&parameters.map[1].1), "x=y");
}

#[test]
fn command_line_follows_the_file() {
    let given = args(None, Some("p.json"), None, &["a=2"]);
    let file = Parameters::new_with_map(vec![
        ("a".to_string(), JsonValue::Integer(1)),
        ("c".to_string(), JsonValue::Bool(true)),
    ]);
    let parameters = given.get_parameters(Some(file));
    assert_eq!(parameters.map.len(), 3);
    assert_eq!(parameters.map[0].0, "a");
    assert_eq!(parameters.map[1].0, "c");
    assert_eq!(parameters.map[2].0, "a");
    assert_eq!(text_of(&parameters.map[2].1), "2");

    let without_file = args(None, None, None, &["a=2"]);
    let parameters = without_file.get_parameters(None);
    assert_eq!(parameters.map.len(), 1);

    let nothing = args(None, None, None, &[]);
    assert_eq!(nothing.get_parameters(None).map.len(), 0);
    assert_eq!(Parameters::new().map.len(), 0);
}

#[test]
fn last_entry_of_a_name_counts() {
    let parameters = Parameters::new_with_map(vec![
        ("a".to_string(), JsonValue::Integer(1)),
        ("b".to_string(), JsonValue::Bool(true)),
        ("a".to_string(), JsonValue::Integer(2)),
    ]);
    assert!(matches!(parameters.get("a"), Some(JsonValue::Integer(2))));
    assert!(matches!(parameters.get("b"), Some(JsonValue::Bool(true))));
    assert!(parameters.get("c").is_none());
    assert!(Parameters::new().get("a").is_none());
}
