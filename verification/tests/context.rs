use deploy_helper::context::Context;
use deploy_helper::json::Json;

fn text(s: &str) -> Json {
    Json::Str(s.to_string())
}

#[test]
fn a_new_context_is_empty() {
    let c = Context::new();
    assert_eq!(c.len(), 0);
    assert_eq!(c.names(), Vec::<String>::new());
    assert_eq!(c.get("x"), None);
}

#[test]
fn insert_binds_and_overrides_in_place() {
    let mut c = Context::new();
    c.insert("a".to_string(), Json::Int(1));
    c.insert("b".to_string(), Json::Int(2));
    c.insert("c".to_string(), Json::Int(3));
    c.insert("b".to_string(), text("two"));
    assert_eq!(c.names(), vec!["a", "b", "c"]);
    assert_eq!(c.get("b"), Some(&text("two")));
    assert_eq!(c.get("a"), Some(&Json::Int(1)));
    assert_eq!(c.len(), 3);
}

#[test]
fn remove_keeps_the_order_of_the_others() {
    let mut c = Context::new();
    c.insert("a".to_string(), Json::Int(1));
    c.insert("b".to_string(), Json::Int(2));
    c.insert("c".to_string(), Json::Int(3));
    c.remove("a");
    assert_eq!(c.names(), vec!["b", "c"]);
    assert_eq!(c.get("a"), None);
    assert_eq!(c.get("c"), Some(&Json::Int(3)));
    c.remove("absent");
    assert_eq!(c.names(), vec!["b", "c"]);
    c.insert("a".to_string(), Json::Null);
    assert_eq!(c.names(), vec!["b", "c", "a"]);
}

#[test]
fn values_are_copied_whole() {
    let value = Json::Object(vec![
        ("list".to_string(), Json::Array(vec![Json::Null, Json::Bool(true), Json::Int(-7)])),
        ("number".to_string(), Json::Decimal("1.5".to_string())),
        ("text".to_string(), text("t")),
    ]);
    assert_eq!(value.clone(), value);
    assert!(Json::Null.is_null());
    assert!(!Json::Bool(false).is_null());
    assert!(!value.is_null());
}
