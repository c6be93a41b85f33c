use eval_core::report::{CaseOutcome, EvalReport, Float32Text, Latency};
use eval_core::summary::SummaryFigures;

fn outcome(name: &str, passed: bool, millis: u64, tokens: Option<u32>) -> CaseOutcome {
    CaseOutcome::new(
        name.to_owned(),
        passed,
        vec![("p".to_owned(), passed)],
        Latency::from_nanos(millis as u128 * 1_000_000),
        tokens,
        Vec::new(),
        None,
        None,
        Vec::new(),
    )
}

fn report(outcomes: Vec<CaseOutcome>) -> EvalReport {
    EvalReport::new(outcomes, Float32Text { text: "0".into() }, "local: m".into(), String::new())
}

#[test]
fn totals_and_passes_are_counted() {
    let r = report(vec![
        outcome("a", true, 10, Some(3)),
        outcome("b", false, 30, None),
        outcome("c", true, 20, Some(4)),
    ]);
    assert_eq!(r.total(), 3);
    assert_eq!(r.passed(), 2);
    assert_eq!(r.total_tokens(), Some(7));
}

#[test]
fn no_reported_tokens_is_none_not_zero() {
    let r = report(vec![outcome("a", true, 10, None)]);
    assert_eq!(r.total_tokens(), None);
    assert_eq!(report(Vec::new()).total_tokens(), None);
    let zero = report(vec![outcome("a", true, 10, Some(0))]);
    assert_eq!(zero.total_tokens(), Some(0));
}

#[test]
fn mean_latency_rounds_down_to_the_nanosecond() {
    let r = report(vec![outcome("a", true, 10, None), outcome("b", true, 20, None), outcome("c", true, 20, None)]);
    assert_eq!(r.mean_latency().as_nanos(), 50_000_000 / 3);
    assert_eq!(report(Vec::new()).mean_latency().as_nanos(), 0);
}

#[test]
fn latency_from_nanos_splits_seconds() {
    let l = Latency::from_nanos(2_500_000_001);
    assert_eq!(l.secs, 2);
    assert_eq!(l.subsec_nanos, 500_000_001);
    assert_eq!(l.as_nanos(), 2_500_000_001);
    assert_eq!(Latency::zero().as_nanos(), 0);
}

#[test]
fn latency_at_rank_is_the_nearest_rank_order_statistic() {
    let r = report(vec![
        outcome("a", true, 40, None),
        outcome("b", true, 10, None),
        outcome("c", true, 30, None),
        outcome("d", true, 20, None),
    ]);
    assert_eq!(r.latency_at_rank(1).as_nanos(), 10_000_000);
    assert_eq!(r.latency_at_rank(2).as_nanos(), 20_000_000);
    assert_eq!(r.latency_at_rank(4).as_nanos(), 40_000_000);
}

fn figures(n: usize) -> SummaryFigures {
    SummaryFigures {
        accuracy_percent: "50".into(),
        mean_latency: "15.0ms".into(),
        p50_latency: "10.0ms".into(),
        p95_latency: "20.0ms".into(),
        mean_tokens: Some("4".into()),
        case_latencies: (0..n).map(|i| format!("{}.0ms", 10 * (i + 1))).collect(),
    }
}

#[test]
fn summary_lists_every_case_and_details_failures() {
    let failing = CaseOutcome::new(
        "dig_hole".into(),
        false,
        vec![("removed".into(), false), ("kept".into(), true)],
        Latency::from_nanos(20_000_000),
        None,
        vec!["dig({})".into()],
        None,
        Some("backend error".into()),
        Vec::new(),
    );
    let r = report(vec![outcome("place_block", true, 10, Some(4)), failing]);
    let text = r.summary(&figures(2));
    let expected = [
        "AI eval report",
        "  backend:     local: m",
        "  temperature: 0 (0 = deterministic)",
        "  accuracy:    1/2 cases passed (50%)",
        "  latency:     mean 15.0ms  p50 10.0ms  p95 20.0ms",
        "  tokens:      4 completion total, 4 mean/case (cases reporting usage)",
        "  cases:",
        "    [PASS] place_block  10.0ms  preds 1/1  calls 0  tok 4",
        "    [FAIL] dig_hole     20.0ms  preds 1/2  calls 1",
        "           - emitted: dig({})",
        "           - FAILED: removed",
        "           - run error: backend error",
        "",
    ]
    .join("\n");
    assert_eq!(text, expected);
}

#[test]
fn summary_says_tokens_unavailable_and_pads_short_names() {
    let r = report(vec![outcome("ab", true, 10, None)]);
    let mut f = figures(1);
    f.mean_tokens = None;
    let text = r.summary(&f);
    assert!(text.contains("  tokens:      unavailable (no turn reported a `usage` object)\n"));
    assert!(text.ends_with("    [PASS] ab    10.0ms  preds 1/1  calls 0\n"));
}
