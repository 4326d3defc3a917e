use things_cli::error::ThingError;
use things_cli::plan::{NotesChange, NotesPlan, TextSource, build_update_input, plan_read_text, plan_update};
use things_cli::cli::UpdateArgs;
use things_cli::scripts::{LISTS_BODY, SHARED_HELPERS};
use things_cli::things::{
    CreateThingInput, ScheduleTarget, Script, ScriptOutput, ThingsApp, UpdateThingInput,
    automation_failure, flag,
};

fn s(x: &str) -> String {
    x.to_string()
}

#[test]
fn simple_calls_carry_their_arguments() {
    let app = ThingsApp::new();
    let c = app.lists();
    assert_eq!(c.script, Script::Lists);
    assert!(c.args.is_empty());
    assert_eq!(c.script.output(), ScriptOutput::ListsJson);
    let c = app.find_by_id("abc");
    assert_eq!((c.script, c.args), (Script::FindById, vec![s("abc")]));
    let c = app.move_to("abc", "Someday");
    assert_eq!((c.script, c.args), (Script::Move, vec![s("abc"), s("Someday")]));
    assert_eq!(app.list_things_in_list("Today").args, vec![s("Today")]);
    assert_eq!(app.delete("x").script.output(), ScriptOutput::Text);
    assert_eq!(app.find_exact_name_matches("n").script.output(), ScriptOutput::ThingsJson);
}

#[test]
fn script_source_is_helpers_then_body() {
    let c = ThingsApp::new().lists();
    assert_eq!(c.source(), format!("{SHARED_HELPERS}\n{LISTS_BODY}"));
}

#[test]
fn create_joins_tags_and_defaults_notes() {
    let c = ThingsApp::new().create(CreateThingInput {
        list_name: s("Inbox"),
        name: s("Task"),
        notes: None,
        tags: vec![s("a"), s("b")],
    });
    assert_eq!(c.script, Script::Create);
    assert_eq!(c.args, vec![s("Inbox"), s("Task"), s(""), s("a, b")]);
}

#[test]
fn update_sends_flags_for_given_fields() {
    let c = ThingsApp::new().update(
        "id1",
        UpdateThingInput { name: Some(s("New")), notes: None, status: Some(s("completed")), tags: Some(vec![]) },
    );
    assert_eq!(
        c.args,
        vec![s("id1"), s("New"), s("1"), s(""), s("0"), s("completed"), s("1"), s(""), s("1")]
    );
    assert_eq!(flag(true), "1");
    assert_eq!(flag(false), "0");
}

#[test]
fn schedule_sends_decimal_fields() {
    let c = ThingsApp::new().schedule(
        "id1",
        ScheduleTarget { year: -44, month: 3, day: 15, hour: 0, minute: 5, second: 59 },
    );
    assert_eq!(c.args, vec![s("id1"), s("-44"), s("3"), s("15"), s("0"), s("5"), s("59")]);
}

#[test]
fn automation_failure_details() {
    let m = |e: ThingError| match e {
        ThingError::Automation(m) => m,
        _ => panic!("expected automation error"),
    };
    assert_eq!(m(automation_failure(" err \n", " out ")), "err | stdout: out");
    assert_eq!(m(automation_failure("err", "  ")), "err");
    assert_eq!(m(automation_failure("", "out")), "out");
    assert_eq!(m(automation_failure(" ", "")), "unknown osascript failure");
}

#[test]
fn read_plans() {
    assert!(matches!(plan_read_text(Some(s("v")), None), Ok(NotesPlan::Known(Some(v))) if v == "v"));
    assert!(matches!(plan_read_text(None, Some(s("-"))), Ok(NotesPlan::Read(TextSource::Stdin))));
    assert!(matches!(plan_read_text(None, Some(s("n.txt"))), Ok(NotesPlan::Read(TextSource::File(p))) if p == "n.txt"));
    assert!(matches!(plan_read_text(None, None), Ok(NotesPlan::Known(None))));
    let e = plan_read_text(Some(s("v")), Some(s("f"))).unwrap_err();
    assert_eq!(e.message(), "value and value-file cannot be used together");
}

fn update_args() -> UpdateArgs {
    UpdateArgs {
        selector: s("x"),
        name: None,
        notes: None,
        notes_file: None,
        clear_notes: false,
        status: None,
        tags: vec![],
        clear_tags: false,
    }
}

#[test]
fn update_plans() {
    let e = plan_update(update_args()).unwrap_err();
    assert_eq!(e.message(), "update requires at least one field change");
    let mut blank_tags = update_args();
    blank_tags.tags = vec![s("  ")];
    assert!(plan_update(blank_tags).is_err());

    let mut a = update_args();
    a.name = Some(s("  Renamed "));
    a.tags = vec![s("b"), s(" a")];
    a.clear_notes = true;
    let p = plan_update(a).unwrap();
    assert_eq!(p.name, Some(s("Renamed")));
    assert!(matches!(p.notes, NotesChange::Replace(ref n) if n.is_empty()));
    assert_eq!(p.tags, Some(vec![s("a"), s("b")]));

    let mut a = update_args();
    a.notes_file = Some(s("-"));
    a.clear_tags = true;
    let p = plan_update(a).unwrap();
    assert!(matches!(p.notes, NotesChange::Read(TextSource::Stdin)));
    assert_eq!(p.tags, Some(vec![]));

    let mut a = update_args();
    a.name = Some(s(" "));
    assert_eq!(plan_update(a).unwrap_err().message(), "name must not be empty");
}

#[test]
fn update_input_validates_status() {
    let i = build_update_input(None, Some(s("n")), Some(s(" Canceled")), None).unwrap();
    assert_eq!(i.status, Some(s("canceled")));
    assert_eq!(i.notes, Some(s("n")));
    let e = build_update_input(None, None, Some(s("nope")), None).unwrap_err();
    assert_eq!(e.exit_code(), 4);
}
