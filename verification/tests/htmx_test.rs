use rsmd::htmx::{dynamic_script, is_htmx_request, render_partial_content};

#[test]
fn htmx_test_dynamic_script_contains_fetch() {
    let script = dynamic_script();
    assert!(script.contains("fetch("));
    assert!(script.contains("<script"));
    assert!(script.contains("data-load"));
}

#[test]
fn htmx_test_dynamic_script_event_listeners() {
    let script = dynamic_script();
    assert!(script.contains("addEventListener"));
    assert!(script.contains("DOMContentLoaded"));
    assert!(script.contains("click"));
}

#[test]
fn htmx_test_render_partial_content() {
    let html = "<h1>Test</h1>";
    let result = render_partial_content(html);
    assert_eq!(result, html);
}

#[test]
fn test_is_htmx_request() {
    assert!(is_htmx_request(Some("true")));
    assert!(!is_htmx_request(Some("false")));
    assert!(!is_htmx_request(None));
}
