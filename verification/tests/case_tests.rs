use eval_core::baseline_files;
use eval_core::case::case_file_order;
use eval_core::EvalCase;

#[test]
fn baseline_files_are_the_three_capability_files() {
    let embedded = vec![
        ("tool_use.ron".to_owned(), String::new()),
        ("arithmetic.ron".to_owned(), String::new()),
        ("language.ron".to_owned(), String::new()),
    ];
    let names: Vec<String> = baseline_files(embedded).into_iter().map(|(n, _)| n).collect();
    assert_eq!(names, vec!["arithmetic.ron", "language.ron", "tool_use.ron"]);
}

#[test]
fn baseline_files_keep_contents_and_skip_other_files() {
    let embedded = vec![
        ("README.md".to_owned(), "docs".to_owned()),
        ("b.RON".to_owned(), "(b)".to_owned()),
        ("a.ron".to_owned(), "(a)".to_owned()),
    ];
    assert_eq!(
        baseline_files(embedded),
        vec![("a.ron".to_owned(), "(a)".to_owned()), ("b.RON".to_owned(), "(b)".to_owned())]
    );
}

#[test]
fn case_files_are_the_ron_entries_in_sorted_order() {
    let names = vec![
        "notes.txt".to_owned(),
        "b.ron".to_owned(),
        "a.ron".to_owned(),
        ".ron".to_owned(),
        "c.Ron".to_owned(),
        "archive.ron.bak".to_owned(),
        "B.ron".to_owned(),
    ];
    assert_eq!(case_file_order(names), vec!["B.ron", "a.ron", "b.ron", "c.Ron"]);
}

#[test]
fn eval_case_holds_its_parts() {
    let case: EvalCase<(), String> = EvalCase {
        name: "adds".into(),
        instruction: "add 2 and 2".into(),
        setup: (),
        expect: vec!["x".into()],
    };
    assert_eq!(case.expect.len(), 1);
    assert_eq!(case.name, "adds");
}
