use eval_core::expect::Expectation;
use eval_core::json::Json;
use eval_core::runner::{
    api_key_is_usable, panicked_outcome, scored_outcome, settle_run, truncate_one_line, RunMeta,
};
use eval_core::{Float32Text, Latency, RunArtifacts, ToolCall};

fn meta() -> RunMeta {
    RunMeta::new(Float32Text { text: format!("{}", 0.7_f32) }, "local: m".into(), "sys".into())
}

fn judge(_: &str, _: &str, _: &str) -> bool {
    false
}

#[test]
fn default_meta_is_neutral() {
    let m = RunMeta::default();
    assert_eq!(m.temperature.text, format!("{}", 0.0_f32));
    assert!(m.backend.is_empty() && m.system_prompt.is_empty());
    assert!(m.persist.is_none() && m.upload.is_none() && !m.panic_suppress);
}

#[test]
fn persist_builders_fill_the_persist_target() {
    let m = meta()
        .persist_to(std::path::PathBuf::from("eval/results"), "my-model".into())
        .backend_kind("local".into())
        .cases_dir("eval/cases".into());
    let p = m.persist.as_ref().expect("persist target");
    assert_eq!(p.results_dir, std::path::PathBuf::from("eval/results"));
    assert_eq!(p.model, "my-model");
    assert_eq!(p.backend, "local");
    assert_eq!(p.cases_dir, "eval/cases");
    assert_eq!(m.temperature.text, "0.7");
    assert_eq!(m.backend, "local: m");
}

#[test]
fn persist_detail_builders_are_no_ops_without_a_target() {
    let m = meta().backend_kind("local".into()).cases_dir("x".into());
    assert!(m.persist.is_none());
    let m = meta().upload_model("m".into()).upload_cases_dir("x".into());
    assert!(m.upload.is_none());
}

#[test]
fn upload_builders_fill_the_upload_target() {
    let m = meta()
        .upload_to("proj".into(), "key".into())
        .upload_model("m".into())
        .upload_cases_dir("c".into());
    let u = m.upload.as_ref().expect("upload target");
    assert_eq!(u.project_id, "proj");
    assert_eq!(u.api_key, "key");
    assert_eq!(u.model, "m");
    assert_eq!(u.cases_dir, "c");
    assert_eq!(u.url(), "https://evalforge.ai/api/projects/proj/runs");
}

#[test]
fn upload_from_env_needs_a_non_blank_key() {
    assert!(meta().upload_from_env("p".into(), None).upload.is_none());
    assert!(meta().upload_from_env("p".into(), Some("   ".into())).upload.is_none());
    let m = meta().upload_from_env("p".into(), Some(" sk ".into()));
    assert_eq!(m.upload.as_ref().expect("enabled").api_key, " sk ");
    assert!(api_key_is_usable(&Some("k".into())));
    let earlier = meta().upload_to("p".into(), "old".into());
    assert!(earlier.upload_from_env("p".into(), Some(" ".into())).upload.is_none());
    assert!(!api_key_is_usable(&Some("\t\n".into())));
}

#[test]
fn record_identity_prefers_persist_over_upload() {
    assert!(meta().record_identity().is_none());
    let upload_only = meta().upload_to("p".into(), "k".into()).upload_model("up".into());
    assert_eq!(
        upload_only.record_identity(),
        Some(("up".to_owned(), String::new(), String::new()))
    );
    let both = upload_only
        .persist_to(std::path::PathBuf::from("r"), "persisted".into())
        .backend_kind("remote".into())
        .cases_dir("cd".into());
    assert_eq!(
        both.record_identity(),
        Some(("persisted".to_owned(), "remote".to_owned(), "cd".to_owned()))
    );
}

#[test]
fn settle_keeps_the_soft_error_on_the_artifacts() {
    let (artifacts, err) = settle_run(Ok(RunArtifacts::new().with_error("soft boom".into())));
    assert_eq!(err.as_deref(), Some("soft boom"));
    assert_eq!(artifacts.error.as_deref(), Some("soft boom"));
    let (label, passed) = Expectation::NoError.evaluate(&artifacts, &judge).expect("ok");
    assert_eq!(label, "NoError");
    assert!(!passed);
}

#[test]
fn settle_of_a_hard_error_scores_empty_artifacts() {
    let (artifacts, err) = settle_run(Err("hard boom".into()));
    assert_eq!(err.as_deref(), Some("hard boom"));
    assert!(artifacts.tool_calls.is_empty() && artifacts.final_text.is_none());
    assert!(artifacts.error.is_none() && artifacts.tokens.is_none());
}

#[test]
fn scored_outcome_passes_only_without_error_and_with_every_predicate() {
    let lat = Latency { secs: 1, subsec_nanos: 5 };
    let artifacts = RunArtifacts::new()
        .with_tool_calls(vec![ToolCall::new("calculator".into(), Json::Object(Vec::new()))])
        .with_tokens(7)
        .with_final_text("done".into());
    let ok = scored_outcome("pass".into(), artifacts, None, lat, vec![("world.ok".into(), true)]);
    assert!(ok.passed);
    assert_eq!(ok.tokens, Some(7));
    assert_eq!(ok.tool_calls, vec!["calculator({})".to_owned()]);
    assert_eq!(ok.final_text.as_deref(), Some("done"));
    assert_eq!(ok.predicates, vec![("world.ok".to_owned(), true)]);

    let soft = scored_outcome(
        "soft".into(),
        RunArtifacts::new(),
        Some("soft boom".into()),
        lat,
        vec![("world.ok".into(), true)],
    );
    assert!(!soft.passed);
    assert_eq!(soft.error.as_deref(), Some("soft boom"));
    assert!(soft.predicates[0].1);

    let failed = scored_outcome(
        "f".into(),
        RunArtifacts::new(),
        None,
        lat,
        vec![("a".into(), true), ("b".into(), false)],
    );
    assert!(!failed.passed);

    let vacuous = scored_outcome("v".into(), RunArtifacts::new(), None, lat, Vec::new());
    assert!(vacuous.passed);
}

#[test]
fn panicked_outcome_fails_every_predicate_by_position() {
    let o = panicked_outcome("panic".into(), 3, Latency { secs: 0, subsec_nanos: 9 }, "kaboom".into());
    assert!(!o.passed);
    assert_eq!(
        o.predicates,
        vec![
            ("predicate #0".to_owned(), false),
            ("predicate #1".to_owned(), false),
            ("predicate #2".to_owned(), false)
        ]
    );
    assert_eq!(o.error.as_deref(), Some("panic: kaboom"));
    assert!(o.tokens.is_none() && o.tool_calls.is_empty() && o.final_text.is_none());
    assert!(o.transcript.is_empty());
}

#[test]
fn truncate_one_line_keeps_the_first_line() {
    assert_eq!(truncate_one_line("first\nsecond"), "first");
    assert_eq!(truncate_one_line("crlf\r\nnext"), "crlf");
    assert_eq!(truncate_one_line("no newline\r"), "no newline\r");
    assert_eq!(truncate_one_line(""), "");
    assert_eq!(truncate_one_line("\nafter"), "");
}

#[test]
fn truncate_one_line_bounds_the_length() {
    let exact: String = "é".repeat(120);
    assert_eq!(truncate_one_line(&exact), exact);
    let long: String = "x".repeat(130);
    let cut = truncate_one_line(&long);
    assert_eq!(cut.chars().count(), 121);
    assert!(cut.ends_with('…'));
    assert_eq!(&cut[..120], &long[..120]);
}

#[test]
fn case_outcome_names_the_case_and_keeps_one_predicate_per_expectation() {
    let case: eval_core::EvalCase<(), Expectation> = eval_core::EvalCase {
        name: "adds".into(),
        instruction: "add".into(),
        setup: (),
        expect: vec![Expectation::NoError, Expectation::NoToolCalls],
    };
    let lat = Latency { secs: 0, subsec_nanos: 1 };
    let scored = eval_core::runner::case_outcome(
        &case,
        eval_core::runner::CaseRun::Scored {
            artifacts: RunArtifacts::new(),
            run_error: None,
            latency: lat,
            predicates: vec![("NoError".into(), true), ("NoToolCalls".into(), true)],
        },
    );
    assert_eq!(scored.name, "adds");
    assert!(scored.passed);
    let panicked = eval_core::runner::case_outcome(
        &case,
        eval_core::runner::CaseRun::Panicked { latency: lat, message: "kaboom".into() },
    );
    assert_eq!(panicked.name, "adds");
    assert_eq!(panicked.predicates.len(), 2);
    assert!(!panicked.passed);
    assert_eq!(panicked.error.as_deref(), Some("panic: kaboom"));
}
