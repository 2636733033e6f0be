use n8n_workflow_sync::remote::{classify_status, endpoint_url, normalize_host, ApiStatus};

#[test]
fn normalizes_a_bare_host() {
    assert_eq!(normalize_host("http://localhost"), "http://localhost/");
}

#[test]
fn normalizes_trailing_slashes() {
    assert_eq!(normalize_host("http://localhost/"), "http://localhost/");
    assert_eq!(normalize_host("http://localhost///"), "http://localhost/");
}

#[test]
fn strips_an_already_present_api_suffix() {
    assert_eq!(normalize_host("http://localhost/api/v1"), "http://localhost/");
    assert_eq!(normalize_host("http://localhost/api/v1/"), "http://localhost/");
    assert_eq!(normalize_host("https://n8n.example.com/v1"), "https://n8n.example.com/");
}

#[test]
fn builds_endpoint_urls() {
    assert_eq!(
        endpoint_url("http://localhost/", "workflows"),
        "http://localhost/api/v1/workflows"
    );
    assert_eq!(
        endpoint_url("http://localhost/", "/workflows/42"),
        "http://localhost/api/v1/workflows/42"
    );
    assert_eq!(
        endpoint_url(&normalize_host("http://localhost/api/v1"), "workflows"),
        "http://localhost/api/v1/workflows"
    );
}

#[test]
fn classifies_status_codes() {
    assert_eq!(classify_status(200), ApiStatus::Success);
    assert_eq!(classify_status(201), ApiStatus::Success);
    assert_eq!(classify_status(401), ApiStatus::AuthFailed);
    assert_eq!(classify_status(404), ApiStatus::NotFound);
    assert_eq!(classify_status(500), ApiStatus::HttpError);
    assert_eq!(classify_status(418), ApiStatus::HttpError);
}
