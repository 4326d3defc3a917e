use things_cli::model::Thing;
use things_cli::normalize::normalize_tags;
use things_cli::schedule::parse_schedule_target;
use things_cli::select::resolve_selector;

fn sample_thing(id: &str, name: &str) -> Thing {
    Thing {
        id: id.to_string(),
        name: name.to_string(),
        notes: None,
        status: "open".to_string(),
        tags: vec![],
        container_name: Some("Inbox".to_string()),
        container_kind: Some("list".to_string()),
        project: None,
        area: None,
        contact: None,
        due_date: None,
        activation_date: None,
        completion_date: None,
        cancellation_date: None,
        creation_date: None,
        modification_date: None,
    }
}

#[test]
fn normalize_tags_sorts_and_deduplicates() {
    assert_eq!(
        normalize_tags(vec![
            " cli ".to_string(),
            "agent".to_string(),
            "cli".to_string(),
            "".to_string(),
        ]),
        vec!["agent".to_string(), "cli".to_string()]
    );
}

#[test]
fn resolve_selector_prefers_id_then_name() {
    let things = vec![sample_thing("abc123", "Inbox Task")];
    assert_eq!(resolve_selector(&things, "abc123").unwrap().id, "abc123");
    assert_eq!(
        resolve_selector(&things, "Inbox Task").unwrap().name,
        "Inbox Task"
    );
}

#[test]
fn resolve_selector_conflicts_on_duplicate_name() {
    let things = vec![
        sample_thing("abc123", "Inbox Task"),
        sample_thing("def456", "Inbox Task"),
    ];
    let error = resolve_selector(&things, "Inbox Task").unwrap_err();
    assert_eq!(error.exit_code(), 3);
}

#[test]
fn parse_schedule_target_accepts_shortcuts() {
    let today = parse_schedule_target("today").unwrap();
    let tomorrow = parse_schedule_target("tomorrow").unwrap();
    assert!(today.year >= 2025);
    assert!(tomorrow.day >= today.day || tomorrow.month >= today.month);
}
