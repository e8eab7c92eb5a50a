use deploy_helper::common::Register;
use deploy_helper::context::Context;
use deploy_helper::engine::merge_vars;
use deploy_helper::json::Json;
use deploy_helper::utils::{
    coerce_outcome, render_outcome, replace_placeholders, replace_placeholders_vars, wants_json,
    RenderError, TemplateFault,
};
use indexmap::IndexMap;

fn text(s: &str) -> Json {
    Json::Str(s.to_string())
}

fn vars(pairs: Vec<(&str, Json)>) -> Context {
    let mut c = Context::new();
    for (k, v) in pairs {
        c.insert(k.to_string(), v);
    }
    c
}

#[test]
fn text_without_placeholders_stays() {
    assert_eq!(replace_placeholders("echo hello", &Context::new()), Ok("echo hello".to_string()));
}

#[test]
fn placeholders_take_the_values_of_the_context() {
    let c = vars(vec![("name", text("world")), ("n", Json::Int(3))]);
    assert_eq!(replace_placeholders("hello {{ name }} x{{ n + 1 }}", &c), Ok("hello world x4".to_string()));
}

#[test]
fn every_kind_of_value_reaches_the_template() {
    let c = vars(vec![
        ("none", Json::Null),
        ("yes", Json::Bool(true)),
        ("whole", Json::Int(-12)),
        ("part", Json::Decimal("2.5".to_string())),
        ("big", Json::Decimal("18446744073709551615".to_string())),
        ("list", Json::Array(vec![Json::Int(1), text("b")])),
        ("obj", Json::Object(vec![("k".to_string(), Json::Object(vec![("deep".to_string(), text("v"))]))])),
    ]);
    assert_eq!(replace_placeholders("{% if none is none %}n{% endif %}", &c), Ok("n".to_string()));
    assert_eq!(replace_placeholders("{% if yes %}y{% endif %}", &c), Ok("y".to_string()));
    assert_eq!(replace_placeholders("{{ whole - 1 }}", &c), Ok("-13".to_string()));
    assert_eq!(replace_placeholders("{{ part * 2 }}", &c), Ok("5.0".to_string()));
    assert_eq!(replace_placeholders("{{ big }}", &c), Ok("18446744073709551615".to_string()));
    assert_eq!(replace_placeholders("{{ list[1] }}{{ list | length }}", &c), Ok("b2".to_string()));
    assert_eq!(replace_placeholders("{{ obj.k.deep }}", &c), Ok("v".to_string()));
}

#[test]
fn a_decimal_that_is_no_number_reaches_the_template_as_none() {
    let c = vars(vec![("odd", Json::Decimal("[1]".to_string()))]);
    assert_eq!(replace_placeholders("{% if odd is none %}n{% endif %}", &c), Ok("n".to_string()));
}

#[test]
fn an_undefined_variable_is_an_error_that_names_what_is_there() {
    let c = vars(vec![("a", Json::Int(1)), ("b", Json::Int(2))]);
    assert_eq!(
        replace_placeholders("{{ c }}", &c),
        Err(RenderError::UndefinedVariable {
            template: "{{ c }}".to_string(),
            available: vec!["a".to_string(), "b".to_string()],
        })
    );
}

#[test]
fn a_malformed_template_is_a_syntax_error() {
    match replace_placeholders("{{ a ", &Context::new()) {
        Err(RenderError::TemplateSyntaxError { template, message }) => {
            assert_eq!(template, "{{ a ");
            assert!(message.contains("syntax error"), "{}", message);
        }
        other => panic!("unexpected: {:?}", other),
    }
}

#[test]
fn what_the_engine_reports_becomes_the_error() {
    let c = vars(vec![("a", Json::Int(1))]);
    assert_eq!(render_outcome("t", &c, Ok("text".to_string())), Ok("text".to_string()));
    assert_eq!(
        render_outcome("t", &c, Err(TemplateFault { undefined: true, message: "m".to_string() })),
        Err(RenderError::UndefinedVariable { template: "t".to_string(), available: vec!["a".to_string()] })
    );
    assert_eq!(
        render_outcome("t", &c, Err(TemplateFault { undefined: false, message: "m".to_string() })),
        Err(RenderError::TemplateSyntaxError { template: "t".to_string(), message: "m".to_string() })
    );
}

#[test]
fn the_filter_changes_nothing_in_the_text() {
    let c = vars(vec![("a", text("[1, 2]"))]);
    assert_eq!(replace_placeholders("{{ a | from_json }}", &c), Ok("[1, 2]".to_string()));
}

#[test]
fn a_plain_template_gives_a_string() {
    let c = vars(vec![("a", Json::Int(1))]);
    assert_eq!(replace_placeholders_vars("{{ a + 1 }}", &c), Ok(text("2")));
    assert_eq!(replace_placeholders_vars("[1, 2]", &c), Ok(text("[1, 2]")));
}

#[test]
fn the_filter_in_the_text_asks_for_json() {
    assert!(wants_json("{{ x | from_json }}"));
    assert!(wants_json("from_json"));
    assert!(!wants_json("{{ x | from_jso }}"));
    assert!(!wants_json(""));
}

#[test]
fn coercion_gives_what_parsing_gives() {
    let literal = r#"{"name": "n", "list": [1, -2, 3.5, true, null], "big": 18446744073709551615}"#;
    let template = format!("{{{{ '{}' | from_json }}}}", literal);
    let value = replace_placeholders_vars(&template, &Context::new()).unwrap();
    let direct = replace_placeholders_vars("{{ raw | from_json }}", &vars(vec![("raw", text(literal))])).unwrap();
    assert_eq!(value, direct);
    let members = match value {
        Json::Object(members) => members,
        other => panic!("unexpected: {:?}", other),
    };
    let find = |name: &str| members.iter().find(|(k, _)| k == name).map(|(_, v)| v.clone());
    assert_eq!(find("name"), Some(text("n")));
    assert_eq!(
        find("list"),
        Some(Json::Array(vec![
            Json::Int(1),
            Json::Int(-2),
            Json::Decimal("3.5".to_string()),
            Json::Bool(true),
            Json::Null,
        ]))
    );
    assert_eq!(find("big"), Some(Json::Decimal("18446744073709551615".to_string())));
}

#[test]
fn text_that_is_no_json_is_an_error() {
    match replace_placeholders_vars("{{ 'nope' | from_json }}", &Context::new()) {
        Err(RenderError::InvalidJson { template, rendered, message }) => {
            assert_eq!(template, "{{ 'nope' | from_json }}");
            assert_eq!(rendered, "nope");
            assert!(message.contains("expected"), "{}", message);
        }
        other => panic!("unexpected: {:?}", other),
    }
}

#[test]
fn what_the_parser_reports_becomes_the_value() {
    assert_eq!(coerce_outcome("plain", "r".to_string(), Ok(Json::Int(1))), Ok(text("r")));
    assert_eq!(coerce_outcome("plain", "r".to_string(), Err("bad".to_string())), Ok(text("r")));
    assert_eq!(coerce_outcome("x | from_json", "r".to_string(), Ok(Json::Int(1))), Ok(Json::Int(1)));
    assert_eq!(
        coerce_outcome("x | from_json", "r".to_string(), Err("bad".to_string())),
        Err(RenderError::InvalidJson {
            template: "x | from_json".to_string(),
            rendered: "r".to_string(),
            message: "bad".to_string(),
        })
    );
}

#[test]
fn a_task_without_condition_runs() {
    assert_eq!(deploy_helper::modules::when::process(&None, &Context::new()), Ok(true));
}

#[test]
fn a_condition_decides() {
    let c = vars(vec![("x", Json::Int(1)), ("flag", text("false"))]);
    assert_eq!(deploy_helper::modules::when::process(&Some("x == 1".to_string()), &c), Ok(true));
    assert_eq!(deploy_helper::modules::when::process(&Some("x == 2".to_string()), &c), Ok(false));
    assert_eq!(deploy_helper::modules::when::process(&Some("x > 0 and flag == 'false'".to_string()), &c), Ok(true));
    assert_eq!(deploy_helper::modules::when::process(&Some("flag".to_string()), &c), Ok(true));
    assert_eq!(deploy_helper::modules::when::process(&Some("false".to_string()), &c), Ok(false));
}

#[test]
fn a_condition_on_an_unknown_variable_fails() {
    match deploy_helper::modules::when::process(&Some("x == 1".to_string()), &Context::new()) {
        Err(RenderError::UndefinedVariable { template, available }) => {
            assert_eq!(template, "{% if x == 1 %}true{% else %}false{% endif %}");
            assert!(available.is_empty());
        }
        other => panic!("unexpected: {:?}", other),
    }
}

#[test]
fn variables_are_set_one_after_the_other() {
    let mut m = IndexMap::new();
    m.insert("a".to_string(), "1".to_string());
    m.insert("b".to_string(), "{{ a }}2".to_string());
    m.insert("c".to_string(), "{{ missing }}".to_string());
    m.insert("d".to_string(), "never".to_string());
    let mut c = Context::new();
    let r = merge_vars(&m, &mut c);
    assert!(matches!(r, Err(RenderError::UndefinedVariable { .. })));
    assert_eq!(c.names(), vec!["a", "b"]);
    assert_eq!(c.get("b"), Some(&text("12")));
    assert_eq!(c.get("a"), Some(&text("1")));
}

#[test]
fn a_register_becomes_an_object() {
    let value = Register { stdout: "o".to_string(), stderr: "e".to_string(), rc: -2 }.to_value();
    assert_eq!(
        value,
        Json::Object(vec![
            ("stdout".to_string(), text("o")),
            ("stderr".to_string(), text("e")),
            ("rc".to_string(), Json::Int(-2)),
        ])
    );
    let c = vars(vec![("r", value)]);
    assert_eq!(replace_placeholders("{{ r.stdout }}/{{ r.stderr }}/{{ r.rc }}", &c), Ok("o/e/-2".to_string()));
}
