use eval_core::persist::{build_record, file_stamp, record_file_name, record_from_parts, slug, Persist};
use eval_core::{EvalReport, Float32Text, RunRecord};

fn report(backend: &str, system_prompt: &str) -> EvalReport {
    EvalReport::new(
        Vec::new(),
        Float32Text { text: format!("{}", 0.0_f32) },
        backend.to_owned(),
        system_prompt.to_owned(),
    )
}

#[test]
fn slug_is_filesystem_safe_and_collapses() {
    assert_eq!(slug("Qwen/Qwen3:7b.gguf"), "Qwen-Qwen3-7b.gguf");
    assert_eq!(slug("a   b"), "a-b");
    assert_eq!(slug("***"), "model");
    assert_eq!(slug("ok_name-1.2"), "ok_name-1.2");
}

#[test]
fn slug_trims_dashes_and_falls_back_to_model() {
    assert_eq!(slug("/leading and trailing/"), "leading-and-trailing");
    assert_eq!(slug(""), "model");
    assert_eq!(slug("--"), "model");
    assert_eq!(slug("a--b"), "a-b");
    assert_eq!(slug("a-*b"), "a-b");
    assert_eq!(slug("modèle"), "mod-le");
}

#[test]
fn slug_of_a_slug_is_itself() {
    for name in ["Qwen/Qwen3:7b.gguf", "a   b", "***", "x__y..z", "-a-"] {
        let once = slug(name);
        assert_eq!(slug(&once), once);
    }
}

#[test]
fn record_file_name_is_slug_underscore_timestamp_json() {
    let record = record_from_parts(
        "my/model".into(),
        "local".into(),
        "cases".into(),
        report("local: m", "sys"),
        "2026-06-18 14:03:21".into(),
        "20260618-140321".into(),
    );
    assert_eq!(record_file_name(&record), "my-model_20260618-140321.json");
}

#[test]
fn record_takes_backend_kind_or_falls_back_to_report_label() {
    let with_kind = record_from_parts(
        "m".into(),
        "remote".into(),
        "dir".into(),
        report("local: m", "sys prompt"),
        "d".into(),
        "f".into(),
    );
    assert_eq!(with_kind.backend, "remote");
    assert_eq!(with_kind.system_prompt, "sys prompt");
    assert_eq!(with_kind.report.system_prompt, "sys prompt");
    assert_eq!(with_kind.cases_dir, "dir");
    assert_eq!(with_kind.timestamp_display, "d");
    assert_eq!(with_kind.timestamp_file, "f");

    let without: RunRecord = record_from_parts(
        "m".into(),
        String::new(),
        String::new(),
        report("local: m", ""),
        "d".into(),
        "f".into(),
    );
    assert_eq!(without.backend, "local: m");
}

#[test]
fn build_record_derives_the_file_stamp_with_a_uuid() {
    let random = [0xffu8; 16];
    let record = build_record(
        "m".into(),
        String::new(),
        "c".into(),
        report("b", "p"),
        "2026-06-18 14:03:21".into(),
        random,
    );
    assert_eq!(record.model, "m");
    assert_eq!(record.backend, "b");
    assert_eq!(record.timestamp_display, "2026-06-18 14:03:21");
    assert_eq!(record.timestamp_file, "20260618-140321-ffffffffffff4fffbfffffffffffffff");
    assert_eq!(record_file_name(&record), "m_20260618-140321-ffffffffffff4fffbfffffffffffffff.json");
}

#[test]
fn file_stamp_sets_the_uuid_version_and_variant() {
    let mut random = [0u8; 16];
    for (i, b) in random.iter_mut().enumerate() {
        *b = (i as u8) * 17;
    }
    let stamp = file_stamp("2026-01-02 03:04:05", &random);
    assert_eq!(stamp, "20260102-030405-00112233445546778899aabbccddeeff");
    let zeros = file_stamp("1970-01-01 00:00:00", &[0u8; 16]);
    assert_eq!(zeros, "19700101-000000-00000000000040008000000000000000");
}

#[test]
fn persist_new_starts_with_empty_kind_and_dir() {
    let p = Persist::new(std::path::PathBuf::from("results"), "m".into());
    assert_eq!(p.results_dir, std::path::PathBuf::from("results"));
    assert_eq!(p.model, "m");
    assert!(p.backend.is_empty());
    assert!(p.cases_dir.is_empty());
}

#[test]
fn slug_of_only_separators_is_model() {
    assert_eq!(slug("/ :*-"), "model");
    assert_eq!(slug("é ü"), "model");
}
