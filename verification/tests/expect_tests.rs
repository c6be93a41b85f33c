use eval_core::expect::Expectation;
use eval_core::json::{Json, JsonNumber};
use eval_core::scorer::BuiltinScorer;
use eval_core::{EvalError, FloatText, RunArtifacts, ToolCall};

fn s(x: &str) -> Json {
    Json::String(x.to_owned())
}

fn n(x: u64) -> Json {
    Json::Number(JsonNumber::PosInt(x))
}

fn obj(entries: Vec<(&str, Json)>) -> Json {
    Json::Object(entries.into_iter().map(|(k, v)| (k.to_owned(), v)).collect())
}

fn call(name: &str, args: Json) -> ToolCall {
    ToolCall::new(name.to_owned(), args)
}

fn artifacts(calls: Vec<ToolCall>, final_text: Option<&str>) -> RunArtifacts {
    let a = RunArtifacts::new().with_tool_calls(calls);
    match final_text {
        Some(t) => a.with_final_text(t.to_owned()),
        None => a,
    }
}

/// The float judge of `FinalNumberEquals`: `|token - value| <= tolerance`.
fn within(token: &str, value: &str, tolerance: &str) -> bool {
    let x: f64 = token.parse().expect("a number token");
    let v: f64 = value.parse().expect("a value");
    let t: f64 = tolerance.parse().expect("a tolerance");
    (x - v).abs() <= t
}

fn num(value: f64, tolerance: f64) -> Expectation {
    Expectation::FinalNumberEquals {
        value: FloatText::new(format!("{}", value)),
        tolerance: FloatText::new(format!("{}", tolerance)),
    }
}

fn pass(exp: &Expectation, art: &RunArtifacts) -> bool {
    exp.evaluate(art, &within).expect("infallible expectation").1
}

fn empty_obj() -> Json {
    Json::Object(Vec::new())
}

#[test]
fn called_tool_and_did_not_call_tool() {
    let art = artifacts(vec![call("calculator", obj(vec![("op", s("add"))]))], None);
    assert!(pass(&Expectation::CalledTool { tool: "calculator".into() }, &art));
    assert!(!pass(&Expectation::CalledTool { tool: "search".into() }, &art));
    assert!(pass(&Expectation::DidNotCallTool { tool: "search".into() }, &art));
    assert!(!pass(&Expectation::DidNotCallTool { tool: "calculator".into() }, &art));
}

#[test]
fn called_tool_with_subset_match() {
    let art = artifacts(
        vec![call("calculator", obj(vec![("op", s("add")), ("a", n(2)), ("b", n(2))]))],
        None,
    );
    assert!(pass(
        &Expectation::CalledToolWith { tool: "calculator".into(), args: obj(vec![("op", s("add"))]) },
        &art
    ));
    assert!(!pass(
        &Expectation::CalledToolWith { tool: "calculator".into(), args: obj(vec![("op", s("sub"))]) },
        &art
    ));
    assert!(!pass(
        &Expectation::CalledToolWith {
            tool: "calculator".into(),
            args: obj(vec![("op", s("add")), ("c", n(9))]),
        },
        &art
    ));
}

#[test]
fn nested_subset_and_whole_array_match() {
    let art = artifacts(
        vec![call(
            "set_voxel",
            obj(vec![
                ("at", Json::Array(vec![n(1), n(2), n(3)])),
                ("block", obj(vec![("type", s("stone")), ("hardness", n(5))])),
            ]),
        )],
        None,
    );
    assert!(pass(
        &Expectation::CalledToolWith {
            tool: "set_voxel".into(),
            args: obj(vec![
                ("block", obj(vec![("type", s("stone"))])),
                ("at", Json::Array(vec![n(1), n(2), n(3)])),
            ]),
        },
        &art
    ));
    assert!(!pass(
        &Expectation::CalledToolWith {
            tool: "set_voxel".into(),
            args: obj(vec![("at", Json::Array(vec![n(1), n(2)]))]),
        },
        &art
    ));
}

#[test]
fn tool_call_count_bounds() {
    let art = artifacts(
        vec![call("a", empty_obj()), call("a", empty_obj()), call("b", empty_obj())],
        None,
    );
    assert!(pass(&Expectation::ToolCallCount { tool: None, min: Some(3), max: Some(3) }, &art));
    assert!(pass(
        &Expectation::ToolCallCount { tool: Some("a".into()), min: Some(2), max: Some(2) },
        &art
    ));
    assert!(!pass(
        &Expectation::ToolCallCount { tool: Some("b".into()), min: Some(2), max: None },
        &art
    ));
}

#[test]
fn called_tools_in_order_is_a_subsequence() {
    let art = artifacts(
        vec![call("plan", empty_obj()), call("search", empty_obj()), call("write", empty_obj())],
        None,
    );
    assert!(pass(
        &Expectation::CalledToolsInOrder { tools: vec!["plan".into(), "write".into()] },
        &art
    ));
    assert!(!pass(
        &Expectation::CalledToolsInOrder { tools: vec!["write".into(), "plan".into()] },
        &art
    ));
    assert!(pass(&Expectation::CalledToolsInOrder { tools: vec![] }, &art));
}

#[test]
fn no_tool_calls() {
    assert!(pass(&Expectation::NoToolCalls, &artifacts(vec![], Some("hi"))));
    assert!(!pass(&Expectation::NoToolCalls, &artifacts(vec![call("x", empty_obj())], None)));
}

#[test]
fn final_text_contains_equals_matches() {
    let art = artifacts(vec![], Some("The answer is Forty-Two."));
    assert!(pass(
        &Expectation::FinalTextContains { text: "Forty-Two".into(), case_insensitive: false },
        &art
    ));
    assert!(!pass(
        &Expectation::FinalTextContains { text: "forty-two".into(), case_insensitive: false },
        &art
    ));
    assert!(pass(
        &Expectation::FinalTextContains { text: "forty-two".into(), case_insensitive: true },
        &art
    ));
    let trimmed = artifacts(vec![], Some("  done  "));
    assert!(pass(&Expectation::FinalTextEquals { text: "done".into() }, &trimmed));
    assert!(pass(&Expectation::FinalTextMatches { regex: r"answer is \w+-\w+".into() }, &art));
}

#[test]
fn final_text_matches_bad_regex_is_an_error() {
    let art = artifacts(vec![], Some("x"));
    let err = Expectation::FinalTextMatches { regex: "(".into() }
        .evaluate(&art, &within)
        .expect_err("a malformed regex is a hard error");
    assert!(matches!(err, EvalError::Regex { .. }));
}

#[test]
fn final_number_extraction_takes_the_last_number() {
    let art = artifacts(vec![], Some("Adding 2 and 2 gives 4"));
    assert!(pass(&num(4.0, 0.0), &art));
    let art = artifacts(vec![], Some("approximately 3.1399"));
    assert!(pass(&num(3.14159, 0.01), &art));
    assert!(!pass(&num(3.14159, 0.0001), &art));
    let art = artifacts(vec![], Some("the balance is -1,024.50"));
    assert!(pass(&num(-1024.5, 0.0), &art));
    let art = artifacts(vec![], Some("no digits here"));
    assert!(!pass(&num(1.0, 0.0), &art));
}

#[test]
fn no_error_reflects_artifacts_error() {
    let art = artifacts(vec![], None);
    assert!(pass(&Expectation::NoError, &art));
    let art = art.with_error("boom".into());
    assert!(!pass(&Expectation::NoError, &art));
}

fn scorer_artifacts() -> RunArtifacts {
    artifacts(
        vec![call("calculator", obj(vec![("op", s("add")), ("a", n(2)), ("b", n(2))]))],
        Some("The answer is 4"),
    )
}

#[test]
fn builtin_scorer_evaluates_over_artifacts() {
    let art = scorer_artifacts();
    let (label, passed) = BuiltinScorer.score_with(
        &Expectation::CalledToolWith { tool: "calculator".into(), args: obj(vec![("op", s("add"))]) },
        &art,
        &within,
    );
    assert!(passed);
    assert!(label.starts_with("CalledToolWith("));

    let (_, passed) = BuiltinScorer.score_with(&num(4.0, 0.0), &art, &within);
    assert!(passed);
}

#[test]
fn builtin_scorer_reports_bad_regex_as_failed_labeled_predicate() {
    let (label, passed) = BuiltinScorer.score_with(
        &Expectation::FinalTextMatches { regex: "(".into() },
        &scorer_artifacts(),
        &within,
    );
    assert!(!passed, "a malformed regex scores as a failed predicate");
    assert!(label.contains("invalid:"), "label names the regex error: {label}");
}

#[test]
fn bad_regex_label_names_the_pattern() {
    let (label, _) = BuiltinScorer.score_with(
        &Expectation::FinalTextMatches { regex: "(".into() },
        &scorer_artifacts(),
        &within,
    );
    let reason = regex::Regex::new("(").expect_err("malformed").to_string();
    assert_eq!(label, format!("FinalTextMatches(\"(\") [invalid: invalid regex `(`: {reason}]"));
}

#[test]
fn bad_regex_is_an_error_even_without_final_text() {
    let art = artifacts(vec![], None);
    let r = Expectation::FinalTextMatches { regex: "[".into() }.evaluate(&art, &within);
    assert!(matches!(r, Err(EvalError::Regex { ref pattern, .. }) if pattern == "["));
}

#[test]
fn regex_without_final_text_fails() {
    let art = artifacts(vec![], None);
    assert!(!pass(&Expectation::FinalTextMatches { regex: "a*".into() }, &art));
}

#[test]
fn labels_identify_each_expectation() {
    assert_eq!(Expectation::CalledTool { tool: "calc".into() }.label(), "CalledTool(calc)");
    assert_eq!(Expectation::DidNotCallTool { tool: "x".into() }.label(), "DidNotCallTool(x)");
    assert_eq!(
        Expectation::CalledToolWith { tool: "calc".into(), args: obj(vec![("op", s("add"))]) }.label(),
        "CalledToolWith(calc, {\"op\":\"add\"})"
    );
    assert_eq!(
        Expectation::ToolCallCount { tool: None, min: Some(1), max: None }.label(),
        "ToolCallCount(any, >= Some(1), <= None)"
    );
    assert_eq!(
        Expectation::CalledToolsInOrder { tools: vec!["a".into(), "b".into(), "c".into()] }.label(),
        "CalledToolsInOrder(a -> b -> c)"
    );
    assert_eq!(Expectation::NoToolCalls.label(), "NoToolCalls");
    assert_eq!(
        Expectation::FinalTextContains { text: "hi".into(), case_insensitive: true }.label(),
        "FinalTextContains(\"hi\", case-insensitive)"
    );
    assert_eq!(
        Expectation::FinalTextContains { text: "hi".into(), case_insensitive: false }.label(),
        "FinalTextContains(\"hi\")"
    );
    assert_eq!(Expectation::FinalTextEquals { text: "a\"b".into() }.label(), "FinalTextEquals(\"a\\\"b\")");
    assert_eq!(Expectation::FinalTextMatches { regex: "x+".into() }.label(), "FinalTextMatches(\"x+\")");
    assert_eq!(num(4.0, 0.0).label(), "FinalNumberEquals(4)");
    assert_eq!(num(3.5, 0.25).label(), "FinalNumberEquals(3.5 ± 0.25)");
    assert_eq!(num(2.0, -0.0).label(), "FinalNumberEquals(2)");
    assert_eq!(Expectation::NoError.label(), "NoError");
}

#[test]
fn evaluate_returns_the_label_with_the_verdict() {
    let art = artifacts(vec![call("calc", empty_obj())], Some("x"));
    let exp = Expectation::CalledTool { tool: "calc".into() };
    let (label, passed) = exp.evaluate(&art, &within).expect("ok");
    assert_eq!(label, "CalledTool(calc)");
    assert!(passed);
}

#[test]
fn count_bounds_are_inclusive_and_optional() {
    let art = artifacts(vec![call("a", empty_obj()), call("b", empty_obj())], None);
    assert!(pass(&Expectation::ToolCallCount { tool: None, min: None, max: None }, &art));
    assert!(pass(&Expectation::ToolCallCount { tool: None, min: Some(2), max: Some(2) }, &art));
    assert!(!pass(&Expectation::ToolCallCount { tool: None, min: None, max: Some(1) }, &art));
    assert!(pass(&Expectation::ToolCallCount { tool: Some("zzz".into()), min: None, max: Some(0) }, &art));
}

#[test]
fn subset_needs_the_named_tool() {
    let art = artifacts(vec![call("search", obj(vec![("op", s("add"))]))], None);
    assert!(!pass(
        &Expectation::CalledToolWith { tool: "calculator".into(), args: obj(vec![("op", s("add"))]) },
        &art
    ));
    assert!(pass(&Expectation::CalledToolWith { tool: "search".into(), args: empty_obj() }, &art));
}

#[test]
fn float_and_integer_json_numbers_differ_but_zeros_agree() {
    let float_zero = Json::Number(JsonNumber::Float("0.0".into()));
    let neg_zero = Json::Number(JsonNumber::Float("-0.0".into()));
    let art = artifacts(vec![call("t", obj(vec![("x", neg_zero)]))], None);
    assert!(pass(&Expectation::CalledToolWith { tool: "t".into(), args: obj(vec![("x", float_zero)]) }, &art));
    assert!(!pass(&Expectation::CalledToolWith { tool: "t".into(), args: obj(vec![("x", n(0))]) }, &art));
}

#[test]
fn final_text_missing_fails_text_checks() {
    let art = artifacts(vec![], None);
    assert!(!pass(&Expectation::FinalTextContains { text: "".into(), case_insensitive: false }, &art));
    assert!(!pass(&Expectation::FinalTextEquals { text: "".into() }, &art));
    assert!(!pass(&num(0.0, 1.0), &art));
}

#[test]
fn last_number_token_is_returned_without_commas() {
    assert_eq!(eval_core::number::last_number("the balance is -1,024.50"), Some("-1024.50".to_owned()));
    assert_eq!(eval_core::number::last_number("2 then +7 then 1,2,3"), Some("123".to_owned()));
    assert_eq!(eval_core::number::last_number("no digits here"), None);
    assert_eq!(eval_core::number::last_number("version 3.1.4"), Some(".4".to_owned()));
}

#[test]
fn tool_call_display_is_name_and_compact_args() {
    let c = call("calculator", obj(vec![("op", s("add")), ("a", n(2))]));
    assert_eq!(c.display(), "calculator({\"a\":2,\"op\":\"add\"})");
}

#[test]
fn a_lone_sign_or_point_is_no_number() {
    assert_eq!(eval_core::number::last_number("-"), None);
    assert_eq!(eval_core::number::last_number("."), None);
    assert_eq!(eval_core::number::last_number("- ."), None);
    assert_eq!(eval_core::number::last_number("x7"), Some("7".to_owned()));
}
