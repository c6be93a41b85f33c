use eval_core::upload::{endpoint_url, Upload, EVALFORGE_BASE_URL};

#[test]
fn endpoint_url_is_evalforge_projects_runs() {
    assert_eq!(
        endpoint_url("https://evalforge.ai", "abc"),
        "https://evalforge.ai/api/projects/abc/runs"
    );
}

#[test]
fn endpoint_url_trims_trailing_slash() {
    assert_eq!(
        endpoint_url("https://evalforge.ai/", "abc"),
        "https://evalforge.ai/api/projects/abc/runs"
    );
}

#[test]
fn endpoint_url_trims_every_trailing_slash() {
    assert_eq!(endpoint_url("http://h///", "p"), "http://h/api/projects/p/runs");
    assert_eq!(endpoint_url("", "p"), "/api/projects/p/runs");
}

#[test]
fn upload_new_posts_to_evalforge() {
    let u = Upload::new("proj-xyz".into(), "sk-eval-testkey".into());
    assert_eq!(u.base_url.as_str(), EVALFORGE_BASE_URL);
    assert_eq!(u.url(), "https://evalforge.ai/api/projects/proj-xyz/runs");
    assert_eq!(u.authorization(), "Bearer sk-eval-testkey");
    assert!(u.model.is_empty() && u.backend.is_empty() && u.cases_dir.is_empty());
}
