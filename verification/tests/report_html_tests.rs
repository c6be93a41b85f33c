use eval_core::report_html::{escape_for_script, is_record_file, newest_first, render_page};
use eval_core::{EvalReport, Float32Text, RunRecord};

fn record(model: &str, ts: &str) -> RunRecord {
    RunRecord {
        model: model.to_owned(),
        timestamp_display: String::new(),
        timestamp_file: ts.to_owned(),
        backend: "local".into(),
        cases_dir: "eval/cases".into(),
        system_prompt: String::new(),
        report: EvalReport::new(Vec::new(), Float32Text { text: "0".into() }, String::new(), String::new()),
    }
}

#[test]
fn escape_for_script_neutralizes_tag_breaks() {
    let s = escape_for_script(r#"{"x":"</script><a>"}"#);
    assert!(!s.contains("</script>"));
    assert!(!s.contains('<'));
    assert!(!s.contains('>'));
}

#[test]
fn escape_for_script_escapes_each_special_character() {
    assert_eq!(escape_for_script("a\\b"), "a\\\\b");
    assert_eq!(escape_for_script("\"q\""), "\\\"q\\\"");
    assert_eq!(escape_for_script("l1\nl2\r"), "l1\\nl2\\r");
    assert_eq!(escape_for_script("<&>"), "\\u003c\\u0026\\u003e");
    assert_eq!(escape_for_script("plain é"), "plain é");
}

#[test]
fn escaped_json_reads_back_as_the_original() {
    let json = r#"{"a":"x\"y","b":"<!-- & -->"}"#;
    let escaped = escape_for_script(json);
    let literal = format!("\"{}\"", escaped.replace("\\u003c", "<").replace("\\u003e", ">").replace("\\u0026", "&"));
    let back: String = literal
        .trim_matches('"')
        .replace("\\\"", "\"")
        .replace("\\\\", "\\");
    assert_eq!(back, json);
}

#[test]
fn render_page_embeds_count_and_escaped_data() {
    let page = render_page(r#"[{"model":"m</script>"}]"#, 1);
    assert!(page.starts_with("<!doctype html>"));
    assert!(page.contains("1 run(s) embedded"));
    assert!(page.contains(r#"const RECORDS = JSON.parse("[{\"model\":\"m\u003c/script\u003e\"}]");"#));
    assert!(page.contains("id=\"leaderboard\""));
    assert!(page.contains("id=\"case-heatmap\""));
    assert!(page.contains("id=\"controls\""));
    assert!(!page.contains("<script src"));
    assert!(!page.contains("<link "));
    assert!(!page.contains("cdn"));
    assert!(page.contains("<script>"));
    assert!(page.ends_with("</html>\n"));
}

#[test]
fn empty_page_says_zero_runs() {
    let page = render_page("[]", 0);
    assert!(page.contains("0 run(s) embedded"));
    assert!(page.contains("JSON.parse(\"[]\")"));
}

#[test]
fn newest_first_orders_by_timestamp_descending_and_is_stable() {
    let sorted = newest_first(vec![
        record("a", "20260618-100000"),
        record("b", "20260618-120000"),
        record("c", "20260618-110000"),
        record("d", "20260618-120000"),
    ]);
    let models: Vec<&str> = sorted.iter().map(|r| r.model.as_str()).collect();
    assert_eq!(models, vec!["b", "d", "c", "a"]);
}

#[test]
fn only_json_files_are_records() {
    assert!(is_record_file("m_20260618-140000.json"));
    assert!(is_record_file("UPPER.JSON"));
    assert!(!is_record_file("report.html"));
    assert!(!is_record_file(".json"));
    assert!(!is_record_file("notes.json.bak"));
    assert!(!is_record_file("json"));
}
