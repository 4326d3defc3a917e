use things_cli::error::ThingError;
use things_cli::model::{Thing, ThingList};
use things_cli::select::{resolve_selector, select_list_name};

fn thing(id: &str, name: &str) -> Thing {
    Thing {
        id: id.to_string(),
        name: name.to_string(),
        notes: None,
        status: "open".to_string(),
        tags: vec![],
        container_name: None,
        container_kind: None,
        project: None,
        area: None,
        contact: None,
        due_date: None,
        activation_date: None,
        completion_date: None,
        cancellation_date: None,
        creation_date: None,
        modification_date: None,
    }
}

fn list(id: &str, name: &str) -> ThingList {
    ThingList { id: id.to_string(), name: name.to_string() }
}

#[test]
fn selector_id_wins_over_name() {
    let things = vec![thing("a1", "b2"), thing("b2", "other")];
    assert_eq!(resolve_selector(&things, "b2").unwrap().id, "b2");
}

#[test]
fn selector_first_id_match_wins() {
    let things = vec![thing("same", "first"), thing("same", "second")];
    assert_eq!(resolve_selector(&things, "same").unwrap().name, "first");
}

#[test]
fn selector_falls_back_to_case_insensitive_name() {
    let things = vec![thing("a1", "Pay Rent"), thing("a2", "Call mom")];
    assert_eq!(resolve_selector(&things, "pay rent").unwrap().id, "a1");
}

#[test]
fn selector_exact_name_beats_case_insensitive() {
    let things = vec![thing("a1", "pay rent"), thing("a2", "Pay Rent")];
    assert_eq!(resolve_selector(&things, "Pay Rent").unwrap().id, "a2");
}

#[test]
fn selector_errors() {
    let things = vec![thing("a1", "Task"), thing("a2", "TASK"), thing("a3", "Other")];
    let e = resolve_selector(&things, "   ").unwrap_err();
    assert_eq!(e.exit_code(), 4);
    assert_eq!(e.message(), "selector must not be empty");
    let e = resolve_selector(&things, "missing").unwrap_err();
    assert_eq!(e.exit_code(), 2);
    assert_eq!(e.message(), "Things task not found: missing");
    let e = resolve_selector(&things, "task").unwrap_err();
    assert_eq!(e.exit_code(), 3);
    assert_eq!(e.message(), "multiple Things tasks match selector case-insensitively: task");
    let dup = vec![thing("a1", "Dup"), thing("a2", "Dup")];
    let e = resolve_selector(&dup, "Dup").unwrap_err();
    assert_eq!(e.message(), "multiple Things tasks share the name: Dup");
}

#[test]
fn list_names_resolve_exactly_then_ignoring_case() {
    let lists = vec![list("1", "Inbox"), list("2", "Today"), list("3", "work"), list("4", "WORK")];
    assert_eq!(select_list_name(&lists, "Inbox").unwrap(), "Inbox");
    assert_eq!(select_list_name(&lists, "today").unwrap(), "Today");
    assert_eq!(select_list_name(&lists, "work").unwrap(), "work");
    let e = select_list_name(&lists, "Work").unwrap_err();
    assert_eq!(e.exit_code(), 3);
    assert_eq!(e.message(), "multiple Things lists matched: Work");
    let e = select_list_name(&lists, "Someday").unwrap_err();
    assert!(matches!(e, ThingError::NotFound(_)));
    assert_eq!(e.message(), "Things list not found: Someday");
}
