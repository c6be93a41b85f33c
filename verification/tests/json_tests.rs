use eval_core::json::{json_equal, json_subset_matches, Json, JsonNumber};
use eval_core::ToolCall;

fn s(x: &str) -> Json {
    Json::String(x.to_owned())
}

fn obj(entries: Vec<(&str, Json)>) -> Json {
    Json::Object(entries.into_iter().map(|(k, v)| (k.to_owned(), v)).collect())
}

fn sample() -> Json {
    obj(vec![
        ("op", s("add")),
        ("n", Json::Number(JsonNumber::NegInt(-3))),
        ("f", Json::Number(JsonNumber::Float("2.5".into()))),
        ("list", Json::Array(vec![Json::Null, Json::Bool(true)])),
    ])
}

#[test]
fn a_document_equals_and_is_a_subset_of_itself() {
    assert!(json_equal(&sample(), &sample()));
    assert!(json_subset_matches(&sample(), &sample()));
}

#[test]
fn object_equality_ignores_key_order() {
    let a = obj(vec![("x", s("1")), ("y", s("2"))]);
    let b = obj(vec![("y", s("2")), ("x", s("1"))]);
    assert!(json_equal(&a, &b));
    assert!(!json_equal(&a, &obj(vec![("x", s("1"))])));
}

#[test]
fn subset_allows_extra_keys_in_the_actual_document() {
    let expected = obj(vec![("op", s("add"))]);
    assert!(json_subset_matches(&expected, &sample()));
    assert!(!json_subset_matches(&sample(), &expected));
}

fn compact(j: &Json) -> String {
    let text = ToolCall::new("t".to_owned(), j.clone()).display();
    text["t(".len()..text.len() - 1].to_owned()
}

#[test]
fn compact_writes_serde_json_text() {
    assert_eq!(compact(&sample()), "{\"f\":2.5,\"list\":[null,true],\"n\":-3,\"op\":\"add\"}");
    assert_eq!(compact(&Json::Object(Vec::new())), "{}");
}

#[test]
fn clone_keeps_the_document() {
    let c = sample().clone();
    assert!(json_equal(&c, &sample()));
    assert_eq!(compact(&c), compact(&sample()));
}
