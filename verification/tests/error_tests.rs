use eval_core::EvalError;

#[test]
fn agent_error_renders_the_host_message() {
    let e = EvalError::agent("backend down");
    assert!(matches!(e, EvalError::Agent(ref m) if m == "backend down"));
    assert_eq!(e.message(), "agent run failed: backend down");
}

#[test]
fn io_error_message_names_the_path_when_known() {
    let bare = EvalError::from(std::io::Error::new(std::io::ErrorKind::NotFound, "gone"));
    assert_eq!(bare.message(), "i/o error: gone");
    let with_path = EvalError::Io {
        path: Some("cases/a.ron".to_owned()),
        source: std::io::Error::new(std::io::ErrorKind::NotFound, "gone"),
    };
    assert_eq!(with_path.message(), "i/o error for cases/a.ron: gone");
}

#[test]
fn ron_error_message_names_the_file() {
    let source = ron::from_str::<u32>("not ron").expect_err("malformed");
    let e = EvalError::RonParse { path: "bad.ron".to_owned(), source };
    assert!(e.message().starts_with("failed to parse RON case bad.ron: "));
}

#[test]
fn regex_error_converts_with_an_empty_pattern() {
    let source = regex::Regex::new("(").expect_err("malformed");
    let e = EvalError::from(source);
    assert!(matches!(e, EvalError::Regex { ref pattern, .. } if pattern.is_empty()));
    assert!(e.message().starts_with("invalid regex ``: "));
}

#[test]
fn ron_error_message_names_the_offending_file_path() {
    let source = ron::from_str::<u32>("this is not ron").expect_err("malformed");
    let e = EvalError::RonParse { path: "cases/oops.ron".to_owned(), source };
    let m = e.message();
    assert!(m.contains("oops.ron"));
    assert!(m.len() > "failed to parse RON case cases/oops.ron: ".len());
}
