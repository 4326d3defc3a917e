use things_cli::listing::{finish_listing, sort_for_listing};
use things_cli::model::{Thing, ThingList};
use things_cli::output::Output;
use things_cli::render::{render_deleted, render_list, render_lists, render_opened, render_plain};

fn thing(id: &str, name: &str, modified: Option<&str>) -> Thing {
    Thing {
        id: id.to_string(),
        name: name.to_string(),
        notes: None,
        status: "open".to_string(),
        tags: vec![],
        container_name: None,
        container_kind: None,
        project: None,
        area: None,
        contact: None,
        due_date: None,
        activation_date: None,
        completion_date: None,
        cancellation_date: None,
        creation_date: None,
        modification_date: modified.map(|m| m.to_string()),
    }
}

fn ids(things: &[Thing]) -> Vec<String> {
    things.iter().map(|t| t.id.clone()).collect()
}

#[test]
fn listing_is_newest_first_then_by_name_and_stable() {
    let things = vec![
        thing("1", "b", Some("2025-01-01T00:00:00Z")),
        thing("2", "a", None),
        thing("3", "z", Some("2025-06-01T00:00:00Z")),
        thing("4", "a", Some("2025-01-01T00:00:00Z")),
        thing("5", "a", None),
    ];
    let sorted = sort_for_listing(things);
    assert_eq!(ids(&sorted), vec!["3", "4", "1", "2", "5"]);
}

#[test]
fn listing_sort_is_idempotent() {
    let things = vec![
        thing("1", "b", Some("2024")),
        thing("2", "a", Some("2025")),
        thing("3", "c", Some("2024")),
    ];
    let once = sort_for_listing(things);
    let once_ids = ids(&once);
    let twice = sort_for_listing(once);
    assert_eq!(ids(&twice), once_ids);
}

#[test]
fn listing_filters_and_limits() {
    let mut a = thing("a", "Write report", Some("3"));
    a.tags = vec!["work".to_string(), "urgent".to_string()];
    let mut b = thing("b", "Buy milk", Some("2"));
    b.tags = vec!["home".to_string()];
    b.notes = Some("from the REPORT shop".to_string());
    let mut c = thing("c", "Report bug", Some("1"));
    c.status = "completed".to_string();
    c.tags = vec!["work".to_string()];

    let all = finish_listing(
        vec![thing("x", "x", None)],
        None,
        vec![],
        None,
        None,
    )
    .unwrap();
    assert_eq!(ids(&all), vec!["x"]);

    let query = finish_listing(
        vec![a, b, c],
        None,
        vec![],
        Some("report".to_string()),
        None,
    )
    .unwrap();
    assert_eq!(ids(&query), vec!["a", "b", "c"]);

    let mut a = thing("a", "Write report", Some("3"));
    a.tags = vec!["work".to_string(), "urgent".to_string()];
    let mut c = thing("c", "Report bug", Some("1"));
    c.status = "completed".to_string();
    c.tags = vec!["work".to_string()];
    let tagged = finish_listing(
        vec![c, a],
        Some(" OPEN ".to_string()),
        vec![" work ".to_string()],
        None,
        Some(5),
    )
    .unwrap();
    assert_eq!(ids(&tagged), vec!["a"]);

    let limited = finish_listing(
        vec![thing("1", "a", Some("1")), thing("2", "b", Some("2")), thing("3", "c", Some("3"))],
        None,
        vec![],
        None,
        Some(2),
    )
    .unwrap();
    assert_eq!(ids(&limited), vec!["3", "2"]);
}

#[test]
fn listing_refuses_unknown_status() {
    let e = finish_listing(vec![], Some("later".to_string()), vec![], None, None).unwrap_err();
    assert_eq!(e.exit_code(), 4);
    assert_eq!(e.message(), "invalid status: later. expected open, completed, or canceled");
}

#[test]
fn query_matches_key_fields_ignoring_case() {
    let mut t = thing("ID-7", "Name", None);
    t.project = Some("Garden Project".to_string());
    t.tags = vec!["Errand".to_string()];
    assert!(t.matches_query("garden"));
    assert!(t.matches_query("ERRAND"));
    assert!(t.matches_query("id-7"));
    assert!(t.matches_query(""));
    assert!(!t.matches_query("kitchen"));
}

#[test]
fn render_tables() {
    assert_eq!(render_lists(&[]).unwrap(), "no lists found");
    let lists = vec![
        ThingList { id: "L1".to_string(), name: "Inbox".to_string() },
        ThingList { id: "L2".to_string(), name: "Today".to_string() },
    ];
    assert_eq!(render_lists(&lists).unwrap(), "ID\tNAME\nL1\tInbox\nL2\tToday");

    assert_eq!(render_list(&[]).unwrap(), "no Things tasks found");
    let mut t = thing("T1", "Pay", None);
    t.tags = vec!["home".to_string(), "money".to_string()];
    t.container_name = Some("Inbox".to_string());
    let u = thing("T2", "Call", None);
    assert_eq!(
        render_list(&[t, u]).unwrap(),
        "ID\tNAME\tSTATUS\tLIST\tTAGS\nT1\tPay\topen\tInbox\thome,money\nT2\tCall\topen\t-\t"
    );
}

#[test]
fn render_messages() {
    let t = thing("T9", "Old task", None);
    assert_eq!(render_deleted(&t), "deleted Old task (T9)");
    assert_eq!(render_opened(&t), "opened Old task (T9)");
    assert_eq!(
        render_plain(&Output::Deleted { deleted: true, thing: thing("T9", "Old task", None) }),
        Some("deleted Old task (T9)".to_string())
    );
    assert_eq!(render_plain(&Output::Thing { thing: t }), None);
    assert_eq!(
        render_plain(&Output::Lists { lists: vec![] }),
        Some("no lists found".to_string())
    );
}

#[test]
fn blank_and_normalized_tags_filter_alike() {
    let mut a = thing("a", "x", None);
    a.tags = vec!["work".to_string()];
    let b = thing("b", "y", None);
    let blank = finish_listing(vec![a, b], None, vec!["  ".to_string()], None, None).unwrap();
    assert_eq!(ids(&blank), vec!["a", "b"]);
    let mut a = thing("a", "x", None);
    a.tags = vec!["work".to_string()];
    let raw = finish_listing(
        vec![a, thing("b", "y", None)],
        None,
        vec![" work ".to_string(), "".to_string(), "work".to_string()],
        None,
        None,
    )
    .unwrap();
    assert_eq!(ids(&raw), vec!["a"]);
}
