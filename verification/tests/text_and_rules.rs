use things_cli::error::ThingError;
use things_cli::normalize::{normalize_tags, normalize_text, validate_status};
use things_cli::text::{eq_ignore_ascii_case, i32_text, join, to_ascii_lowercase, trim, u32_text};

fn strings(items: &[&str]) -> Vec<String> {
    items.iter().map(|s| s.to_string()).collect()
}

fn invalid_message(e: ThingError) -> String {
    match e {
        ThingError::InvalidInput(m) => m,
        other => panic!("expected invalid input, got {:?}", other),
    }
}

#[test]
fn trim_removes_unicode_whitespace_at_both_ends() {
    assert_eq!(trim("  \t hello world \n"), "hello world");
    assert_eq!(trim("\u{3000}x\u{A0}"), "x");
    assert_eq!(trim("\u{2003}\u{85}"), "");
    assert_eq!(trim(""), "");
    assert_eq!(trim("a b"), "a b");
}

#[test]
fn ascii_case_helpers() {
    assert!(eq_ignore_ascii_case("Inbox", "iNBOX"));
    assert!(!eq_ignore_ascii_case("Inbox", "Inbo"));
    assert!(!eq_ignore_ascii_case("Ä", "ä"));
    assert_eq!(to_ascii_lowercase("MiXeD Ä"), "mixed Ä");
}

#[test]
fn join_and_decimal_text() {
    assert_eq!(join(&strings(&["a", "b", "c"]), ", "), "a, b, c");
    assert_eq!(join(&strings(&["solo"]), ","), "solo");
    assert_eq!(join(&Vec::new(), ","), "");
    assert_eq!(u32_text(0), "0");
    assert_eq!(u32_text(4_294_967_295), "4294967295");
    assert_eq!(i32_text(-2147483648), "-2147483648");
    assert_eq!(i32_text(2025), "2025");
}

#[test]
fn normalize_text_trims_and_refuses_blank() {
    assert_eq!(normalize_text("  Buy milk ".to_string(), "name").unwrap(), "Buy milk");
    let e = normalize_text(" \t ".to_string(), "name").unwrap_err();
    assert_eq!(e.exit_code(), 4);
    assert_eq!(invalid_message(e), "name must not be empty");
}

#[test]
fn normalize_text_is_idempotent() {
    let once = normalize_text("\n  Plan trip\t".to_string(), "name").unwrap();
    let twice = normalize_text(once.clone(), "name").unwrap();
    assert_eq!(once, twice);
}

#[test]
fn validate_status_accepts_known_statuses_in_any_case() {
    assert_eq!(validate_status(" Completed ".to_string()).unwrap(), "completed");
    assert_eq!(validate_status("OPEN".to_string()).unwrap(), "open");
    assert_eq!(validate_status("canceled".to_string()).unwrap(), "canceled");
}

#[test]
fn validate_status_refuses_others() {
    let e = validate_status(" Done ".to_string()).unwrap_err();
    assert_eq!(
        invalid_message(e),
        "invalid status: done. expected open, completed, or canceled"
    );
    let e = validate_status("   ".to_string()).unwrap_err();
    assert_eq!(invalid_message(e), "status must not be empty");
}

#[test]
fn normalize_tags_is_idempotent() {
    let once = normalize_tags(strings(&["  zeta", "alpha ", "zeta", "", "  ", "Beta"]));
    assert_eq!(once, strings(&["Beta", "alpha", "zeta"]));
    let twice = normalize_tags(once.clone());
    assert_eq!(once, twice);
}

#[test]
fn normalize_tags_ignores_order_and_repetition() {
    let a = normalize_tags(strings(&["b", "a", "c", "a"]));
    let b = normalize_tags(strings(&["c", "c", "b", "a"]));
    assert_eq!(a, b);
    assert!(normalize_tags(strings(&["", " "])).is_empty());
}

#[test]
fn normalize_tags_orders_by_code_point() {
    assert_eq!(
        normalize_tags(strings(&["é", "z", "Z", "ab", "a"])),
        strings(&["Z", "a", "ab", "z", "é"])
    );
}

#[test]
fn error_kinds_and_exit_codes() {
    let cases = vec![
        (ThingError::NotFound("x".to_string()), "not_found", 2),
        (ThingError::Conflict("x".to_string()), "conflict", 3),
        (ThingError::InvalidInput("x".to_string()), "invalid_input", 4),
        (ThingError::Automation("x".to_string()), "internal", 1),
        (ThingError::Io { path: "p".to_string(), message: "m".to_string() }, "internal", 1),
        (ThingError::Json { path: "p".to_string(), message: "m".to_string() }, "internal", 1),
    ];
    for (e, kind, code) in cases {
        assert_eq!(e.kind(), kind);
        assert_eq!(e.exit_code(), code);
        assert_ne!(e.exit_code(), 0);
    }
}

#[test]
fn error_messages() {
    assert_eq!(ThingError::NotFound("gone".to_string()).message(), "gone");
    assert_eq!(
        ThingError::Automation("boom".to_string()).message(),
        "Things automation failed: boom"
    );
    assert_eq!(
        ThingError::Io { path: "notes.txt".to_string(), message: "denied".to_string() }.message(),
        "failed to read or write notes.txt: denied"
    );
    assert_eq!(
        ThingError::Json { path: "<osascript>".to_string(), message: "eof".to_string() }.message(),
        "failed to parse JSON in <osascript>: eof"
    );
}

#[test]
fn validate_status_is_idempotent() {
    let once = validate_status("\tCANCELED ".to_string()).unwrap();
    let twice = validate_status(once.clone()).unwrap();
    assert_eq!(once, twice);
}
