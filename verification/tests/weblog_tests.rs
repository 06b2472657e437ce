use cubechance::weblog::{access_note, compose_log_line, should_log_path};

#[test]
fn log_line_with_remote_address() {
    let line = compose_log_line("2026-10-09 12:00:00", Some("10.0.0.7"), "Accessing index.html");
    assert_eq!(line, "2026-10-09 12:00:00 (10.0.0.7) - Accessing index.html\n");
}

#[test]
fn log_line_without_remote_address() {
    let line = compose_log_line("2026-10-09 12:00:00", None, "Accessing /");
    assert_eq!(line, "2026-10-09 12:00:00 - Accessing /\n");
}

#[test]
fn only_html_documents_are_logged() {
    assert!(should_log_path("index.html"));
    assert!(should_log_path("a/b/page.html"));
    assert!(!should_log_path("style.css"));
    assert!(!should_log_path("html"));
    assert!(!should_log_path(""));
    assert!(!should_log_path(".htmlx"));
}

#[test]
fn access_note_names_the_path() {
    assert_eq!(access_note("index.html"), "Accessing index.html");
}
