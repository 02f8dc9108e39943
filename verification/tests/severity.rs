use process_manager::severity::line_has_error;

#[test]
fn compilation_error_is_alarming() {
    assert!(line_has_error("Compilation error: missing semicolon"));
}

#[test]
fn normal_startup_is_not_alarming() {
    assert!(!line_has_error("INFO: normal startup"));
}

#[test]
fn every_marker_counts() {
    for line in [
        "an error occurred",
        "CRITICAL: disk full",
        "Fatal signal",
        "thread 'main' panicked at src/main.rs: panic",
        "Traceback (most recent call last):",
        "java.lang.NullPointerException",
    ] {
        assert!(line_has_error(line), "{}", line);
    }
}

#[test]
fn markers_match_in_any_case_and_inside_words() {
    assert!(line_has_error("ERROR"));
    assert!(line_has_error("eRrOr"));
    assert!(line_has_error("stderror"));
    assert!(line_has_error("   errors: 0   "));
}

#[test]
fn routine_lines_do_not_count() {
    for line in ["", "   ", "listening on :8080", "err", "warn: slow", "pani c", "[stderr]", "erro r"] {
        assert!(!line_has_error(line), "{:?}", line);
    }
}

#[test]
fn the_error_stream_tag_itself_is_not_alarming() {
    assert!(!line_has_error("[stderr] listening"));
    assert!(!line_has_error("  [stderr]   ok  "));
    assert!(line_has_error("[stderr] fatal: not a git repository"));
    assert!(line_has_error("[stderr]exception"));
}
