use things_cli::cli::{Command, CreateArgs, ListArgs, MoveArgs, ScheduleArgs, SelectorArgs, UpdateArgs};
use things_cli::error::ThingError;
use things_cli::execute::{Action, Reply, Stage, accepts, start, step};
use things_cli::model::{Thing, ThingList};
use things_cli::output::Output;
use things_cli::plan::TextSource;
use things_cli::select::resolve_selector;
use things_cli::things::{ScriptCall, Script};

fn s(x: &str) -> String {
    x.to_string()
}

fn thing(id: &str, name: &str) -> Thing {
    Thing {
        id: s(id),
        name: s(name),
        notes: None,
        status: s("open"),
        tags: vec![],
        container_name: None,
        container_kind: None,
        project: None,
        area: None,
        contact: None,
        due_date: None,
        activation_date: None,
        completion_date: None,
        cancellation_date: None,
        creation_date: None,
        modification_date: None,
    }
}

fn lists() -> Vec<ThingList> {
    vec![
        ThingList { id: s("1"), name: s("Inbox") },
        ThingList { id: s("2"), name: s("Someday") },
    ]
}

fn run(action: &Action) -> (Script, Vec<String>) {
    match action {
        Action::Run(ScriptCall { script, args }) => (*script, args.clone()),
        other => panic!("expected a script, got {:?}", other),
    }
}

/// Feeds the replies in order; returns the scripts asked for and the result.
fn drive(command: Command, replies: Vec<Reply>) -> (Vec<(Script, Vec<String>)>, Result<Output, ThingError>) {
    let (mut stage, mut action) = start(command);
    let mut calls = Vec::new();
    let mut replies = replies.into_iter();
    let mut count = 0;
    loop {
        match action {
            Action::Finish(result) => {
                assert!(matches!(stage, Stage::Done));
                assert!(replies.next().is_none(), "replies left over");
                return (calls, result);
            }
            Action::Run(_) => calls.push(run(&action)),
            Action::Read(_) => {}
        }
        let reply = replies.next().expect("a reply was needed");
        assert!(accepts(&stage, &reply));
        (stage, action) = step(stage, reply);
        count += 1;
        assert!(count <= 7);
    }
}

fn selector(x: &str) -> SelectorArgs {
    SelectorArgs { selector: s(x) }
}

#[test]
fn get_by_id() {
    let (calls, result) = drive(Command::Get(selector("abc")), vec![Reply::Thing(thing("abc", "Task"))]);
    assert_eq!(calls, vec![(Script::FindById, vec![s("abc")])]);
    assert!(matches!(result, Ok(Output::Thing { thing }) if thing.id == "abc"));
}

#[test]
fn get_falls_back_to_names() {
    let (calls, result) = drive(
        Command::Get(selector("task")),
        vec![
            Reply::Failed(ThingError::Automation(s("no such id"))),
            Reply::Things(vec![]),
            Reply::Things(vec![thing("t1", "Task")]),
        ],
    );
    assert_eq!(
        calls,
        vec![
            (Script::FindById, vec![s("task")]),
            (Script::ExactNameMatches, vec![s("task")]),
            (Script::CaseInsensitiveNameMatches, vec![s("task")]),
        ]
    );
    assert!(matches!(result, Ok(Output::Thing { thing }) if thing.id == "t1"));
}

#[test]
fn selector_errors_end_the_command() {
    let (calls, result) = drive(Command::Complete(selector("  ")), vec![]);
    assert!(calls.is_empty());
    assert_eq!(result.unwrap_err().exit_code(), 4);

    let (_, result) = drive(
        Command::Delete(selector("Dup")),
        vec![
            Reply::Failed(ThingError::Automation(s("x"))),
            Reply::Things(vec![thing("a", "Dup"), thing("b", "Dup")]),
        ],
    );
    let e = result.unwrap_err();
    assert_eq!(e.exit_code(), 3);
    assert_eq!(e.message(), "multiple Things tasks share the name: Dup");

    let (_, result) = drive(
        Command::Open(selector("gone")),
        vec![
            Reply::Failed(ThingError::Automation(s("x"))),
            Reply::Things(vec![]),
            Reply::Things(vec![]),
        ],
    );
    assert_eq!(result.unwrap_err().message(), "Things task not found: gone");

    let (_, result) = drive(
        Command::Open(selector("x")),
        vec![
            Reply::Failed(ThingError::Automation(s("x"))),
            Reply::Failed(ThingError::Automation(s("down"))),
        ],
    );
    assert_eq!(result.unwrap_err().message(), "Things automation failed: down");
}

#[test]
fn lists_command() {
    let (calls, result) = drive(Command::Lists, vec![Reply::Lists(lists())]);
    assert_eq!(calls, vec![(Script::Lists, vec![])]);
    assert!(matches!(result, Ok(Output::Lists { lists }) if lists.len() == 2));
}

#[test]
fn list_in_a_named_list() {
    let args = ListArgs { query: None, status: Some(s("open")), tags: vec![], list_name: Some(s(" someday ")), limit: Some(1) };
    let (calls, result) = drive(
        Command::List(args),
        vec![Reply::Lists(lists()), Reply::Things(vec![thing("1", "b"), thing("2", "a")])],
    );
    assert_eq!(
        calls,
        vec![(Script::Lists, vec![]), (Script::ListThingsInList, vec![s("Someday")])]
    );
    match result {
        Ok(Output::Things { things }) => assert_eq!(things.iter().map(|t| t.id.clone()).collect::<Vec<_>>(), vec![s("2")]),
        other => panic!("unexpected {:?}", other),
    }
    let args = ListArgs { query: None, status: None, tags: vec![], list_name: Some(s("Nowhere")), limit: None };
    let (_, result) = drive(Command::List(args), vec![Reply::Lists(lists())]);
    assert_eq!(result.unwrap_err().exit_code(), 2);
}

#[test]
fn create_flow() {
    let args = CreateArgs {
        name: s("  New task "),
        notes: Some(s("details")),
        notes_file: None,
        list_name: s("inbox"),
        tags: vec![s("b"), s("a"), s("b")],
    };
    let (calls, result) = drive(
        Command::Create(args),
        vec![Reply::Lists(lists()), Reply::Text(s("new-id")), Reply::Thing(thing("new-id", "New task"))],
    );
    assert_eq!(
        calls,
        vec![
            (Script::Lists, vec![]),
            (Script::Create, vec![s("Inbox"), s("New task"), s("details"), s("a, b")]),
            (Script::FindById, vec![s("new-id")]),
        ]
    );
    assert!(matches!(result, Ok(Output::Thing { thing }) if thing.id == "new-id"));
}

#[test]
fn create_reads_notes_from_a_file() {
    let args = CreateArgs { name: s("T"), notes: None, notes_file: Some(s("notes.md")), list_name: s("Inbox"), tags: vec![] };
    let (stage, action) = start(Command::Create(args));
    assert!(matches!(action, Action::Read(TextSource::File(ref p)) if p == "notes.md"));
    let (_, action) = step(stage, Reply::Text(s("from file")));
    assert_eq!(run(&action), (Script::Lists, vec![]));

    let args = CreateArgs { name: s(" "), notes: None, notes_file: Some(s("-")), list_name: s("Inbox"), tags: vec![] };
    let (_, result) = drive(Command::Create(args), vec![]);
    assert_eq!(result.unwrap_err().message(), "name must not be empty");
}

#[test]
fn update_flow() {
    let args = UpdateArgs {
        selector: s("abc"),
        name: None,
        notes: None,
        notes_file: Some(s("-")),
        clear_notes: false,
        status: Some(s("Completed")),
        tags: vec![],
        clear_tags: true,
    };
    let (stage, action) = start(Command::Update(args));
    let (stage, action) = { let _ = action; step(stage, Reply::Thing(thing("abc", "Task"))) };
    assert!(matches!(action, Action::Read(TextSource::Stdin)));
    let (stage, action) = step(stage, Reply::Text(s("piped notes")));
    assert_eq!(
        run(&action),
        (Script::Update, vec![s("abc"), s(""), s("0"), s("piped notes"), s("1"), s("completed"), s("1"), s(""), s("1")])
    );
    let (stage, action) = step(stage, Reply::Text(s("abc")));
    assert_eq!(run(&action), (Script::FindById, vec![s("abc")]));
    let (stage, action) = step(stage, Reply::Thing(thing("abc", "Task")));
    assert!(matches!(stage, Stage::Done));
    assert!(matches!(action, Action::Finish(Ok(Output::Thing { .. }))));
}

#[test]
fn update_without_changes_is_refused() {
    let args = UpdateArgs {
        selector: s("abc"),
        name: None,
        notes: None,
        notes_file: None,
        clear_notes: false,
        status: None,
        tags: vec![],
        clear_tags: false,
    };
    let (_, result) = drive(Command::Update(args), vec![Reply::Thing(thing("abc", "Task"))]);
    assert_eq!(result.unwrap_err().message(), "update requires at least one field change");
}

#[test]
fn move_schedule_delete_open() {
    let (calls, result) = drive(
        Command::Move(MoveArgs { selector: s("abc"), list_name: s("SOMEDAY") }),
        vec![Reply::Thing(thing("abc", "T")), Reply::Lists(lists()), Reply::Text(s("abc")), Reply::Thing(thing("abc", "T"))],
    );
    assert_eq!(calls[2], (Script::Move, vec![s("abc"), s("Someday")]));
    assert!(result.is_ok());

    let (calls, result) = drive(
        Command::Schedule(ScheduleArgs { selector: s("abc"), when: s("2030-07-01 09:15") }),
        vec![Reply::Thing(thing("abc", "T")), Reply::Text(s("abc")), Reply::Thing(thing("abc", "T"))],
    );
    assert_eq!(
        calls[1],
        (Script::Schedule, vec![s("abc"), s("2030"), s("7"), s("1"), s("9"), s("15"), s("0")])
    );
    assert!(result.is_ok());

    let (_, result) = drive(
        Command::Schedule(ScheduleArgs { selector: s("abc"), when: s("whenever") }),
        vec![Reply::Thing(thing("abc", "T"))],
    );
    assert_eq!(result.unwrap_err().exit_code(), 4);

    let (calls, result) = drive(
        Command::Delete(selector("abc")),
        vec![Reply::Thing(thing("abc", "T")), Reply::Text(s("abc"))],
    );
    assert_eq!(calls[1], (Script::Delete, vec![s("abc")]));
    assert!(matches!(result, Ok(Output::Deleted { deleted: true, thing }) if thing.id == "abc"));

    let (_, result) = drive(
        Command::Open(selector("abc")),
        vec![Reply::Thing(thing("abc", "T")), Reply::Text(s("abc"))],
    );
    assert!(matches!(result, Ok(Output::Opened { opened: true, .. })));
}

#[test]
fn failures_after_resolution_end_with_that_error() {
    let (_, result) = drive(
        Command::Complete(selector("abc")),
        vec![Reply::Thing(thing("abc", "T")), Reply::Failed(ThingError::Automation(s("locked")))],
    );
    assert_eq!(result.unwrap_err().message(), "Things automation failed: locked");
}

#[test]
fn accepts_only_expected_replies() {
    let (stage, _) = start(Command::Lists);
    assert!(!accepts(&stage, &Reply::Text(s("x"))));
    assert!(accepts(&stage, &Reply::Lists(vec![])));
    assert!(accepts(&stage, &Reply::Failed(ThingError::Automation(s("x")))));
}

/// The snapshot's to-dos carry only an id and a name.
fn copy(t: &Thing) -> Thing {
    thing(&t.id, &t.name)
}

/// Answers each script from one fixed snapshot, as Things would.
fn answer_from(snapshot: &[Thing], call: &ScriptCall) -> Reply {
    let arg = call.args[0].as_str();
    match call.script {
        Script::FindById => match snapshot.iter().find(|t| t.id == arg) {
            Some(t) => Reply::Thing(copy(t)),
            None => Reply::Failed(ThingError::Automation(s("no such id"))),
        },
        Script::ExactNameMatches => Reply::Things(snapshot.iter().filter(|t| t.name == arg).map(copy).collect()),
        Script::CaseInsensitiveNameMatches => {
            Reply::Things(snapshot.iter().filter(|t| t.name.eq_ignore_ascii_case(arg)).map(copy).collect())
        }
        other => panic!("unexpected script {:?}", other),
    }
}

#[test]
fn staged_search_agrees_with_resolve_selector() {
    let snapshot = vec![
        thing("a1", "Write report"),
        thing("a2", "Dup"),
        thing("a3", "Dup"),
        thing("a4", "mail"),
        thing("a5", "MAIL"),
        thing("a6", "Call Bob"),
        thing("Call Bob", "Other"),
    ];
    for sel in ["a1", " a4 ", "Write report", "write REPORT", "Dup", "dup", "mail", "Mail", "Call Bob", "call bob", "missing", "   "] {
        let (mut stage, mut action) = start(Command::Get(selector(sel)));
        let mut count = 0;
        let result = loop {
            match action {
                Action::Finish(result) => break result,
                Action::Run(ref call) => {
                    let reply = answer_from(&snapshot, call);
                    assert!(accepts(&stage, &reply));
                    (stage, action) = step(stage, reply);
                }
                Action::Read(_) => panic!("no file is read"),
            }
            count += 1;
            assert!(count <= 3);
        };
        match (result, resolve_selector(&snapshot, sel)) {
            (Ok(Output::Thing { thing }), Ok(expected)) => assert_eq!(thing.id, expected.id, "selector {:?}", sel),
            (Err(e), Err(expected)) => {
                assert_eq!(e.exit_code(), expected.exit_code(), "selector {:?}", sel);
                assert_eq!(e.message(), expected.message(), "selector {:?}", sel);
            }
            (got, expected) => panic!("selector {:?}: {:?} against {:?}", sel, got, expected),
        }
    }
}
