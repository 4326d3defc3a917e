use vstd::prelude::*;

use crate::cli::{Command, CreateArgs, ListArgs};
use crate::error::{ThingError, is_conflict, is_invalid_input, is_not_found};
use crate::listing::{finish_listing, lemma_listing_normalized_tags_same, listing_outcome};
use crate::model::{Thing, ThingList, str_views};
use crate::normalize::{empty_field_message, normalize_tags, normalize_text, normalized_tags};
use crate::output::Output;
use crate::plan::{
    NotesChange, NotesPlan, TextSource, UpdatePlan, build_update_input, create_start, plan_create,
    plan_update, update_finish, update_start,
};
use crate::schedule::{parse_schedule_target, schedule_outcome};
use crate::select::{
    empty_selector_message, folded_conflict_message, id_is, list_selection, name_is, name_is_folded,
    select_list_name, selection, shared_name_message, task_not_found_message,
};
use crate::text::{trim, trimmed};
use crate::things::{
    CreateThingInput, ScheduleTarget, Script, ScriptCall, ThingsApp, UpdateThingInput, call_is, create_args,
    schedule_args, update_args,
};

verus! {

/// What the outside world answered to the last action.
#[derive(Debug)]
pub enum Reply {
    /// A script printed lists.
    Lists(Vec<ThingList>),
    /// A script printed to-dos.
    Things(Vec<Thing>),
    /// A script printed one to-do.
    Thing(Thing),
    /// A script printed text, or a text was read.
    Text(String),
    /// The script or the read failed.
    Failed(ThingError),
}

/// What the outside world is asked to do next.
#[derive(Debug)]
pub enum Action {
    /// Run a script and reply with what it printed.
    Run(ScriptCall),
    /// Read a text and reply with it.
    Read(TextSource),
    /// The command is over, with this result.
    Finish(Result<Output, ThingError>),
}

/// Where a command stands, and what it still needs to know.
#[derive(Debug)]
pub enum Stage {
    /// The command is over.
    Done,
    /// Waiting for all lists, to show them.
    AwaitLists,
    /// Waiting for all lists, to find the one a listing is restricted to.
    ListingList { args: ListArgs, requested: String },
    /// Waiting for the to-dos of a listing.
    ListingThings { args: ListArgs },
    /// Waiting for the to-do whose id is the selector.
    ById { command: Command, selector: String },
    /// Waiting for the to-dos named exactly like the selector.
    ByExactName { command: Command, selector: String },
    /// Waiting for the to-dos named like the selector, ignoring case.
    ByFoldedName { command: Command, selector: String },
    /// Waiting for the notes of a new to-do.
    CreateNotes { name: String, list_name: String, tags: Vec<String> },
    /// Waiting for all lists, to find the one a new to-do goes in.
    CreateList { name: String, notes: Option<String>, requested: String, tags: Vec<String> },
    /// Waiting for the id of the new to-do.
    AwaitCreatedId,
    /// Waiting for a change to a to-do to be made.
    AwaitChange { id: String },
    /// Waiting for the changed to-do, to show it.
    Refetch,
    /// Waiting for the new notes of a to-do.
    UpdateNotes {
        id: String,
        name: Option<String>,
        status: Option<String>,
        tags: Option<Vec<String>>,
    },
    /// Waiting for all lists, to find the one a to-do moves to.
    MoveList { id: String, requested: String },
    /// Waiting for a to-do to be deleted.
    AwaitDelete { thing: Thing },
    /// Waiting for a to-do to be shown in Things.
    AwaitOpen { thing: Thing },
}

pub open spec fn runs(a: Action, s: Script, args: Seq<Seq<char>>) -> bool {
    a matches Action::Run(c) && call_is(c, s, args)
}

/// The command ends with an error.
pub open spec fn ends_with(s: Stage, a: Action, e: ThingError) -> bool {
    s is Done && a == Action::Finish(Err::<Output, ThingError>(e))
}

/// The error that an action ends the command with, if it does.
pub open spec fn error_of(a: Action) -> Option<ThingError> {
    match a {
        Action::Finish(Err(e)) => Some(e),
        _ => None,
    }
}

pub open spec fn ends_invalid(s: Stage, a: Action, msg: Seq<char>) -> bool {
    s is Done && error_of(a) is Some && is_invalid_input(error_of(a)->0, msg)
}

pub open spec fn ends_conflict(s: Stage, a: Action, msg: Seq<char>) -> bool {
    s is Done && error_of(a) is Some && is_conflict(error_of(a)->0, msg)
}

pub open spec fn ends_not_found(s: Stage, a: Action, msg: Seq<char>) -> bool {
    s is Done && error_of(a) is Some && is_not_found(error_of(a)->0, msg)
}

pub open spec fn ends_ok(s: Stage, a: Action, out: Output) -> bool {
    s is Done && a == Action::Finish(Ok::<Output, ThingError>(out))
}

/// The commands that act on one to-do, found by a selector.
pub open spec fn targets_thing(c: Command) -> bool {
    match c {
        Command::Lists | Command::List(_) | Command::Create(_) => false,
        _ => true,
    }
}

pub open spec fn selector_of(c: Command) -> Seq<char> {
    match c {
        Command::Get(a) => a.selector@,
        Command::Complete(a) => a.selector@,
        Command::Delete(a) => a.selector@,
        Command::Open(a) => a.selector@,
        Command::Update(a) => a.selector@,
        Command::Move(a) => a.selector@,
        Command::Schedule(a) => a.selector@,
        _ => Seq::empty(),
    }
}

/// A change to the to-do `id` was asked for; its new state is fetched next.
pub open spec fn awaiting_change(id: Seq<char>, s: Stage) -> bool {
    s matches Stage::AwaitChange { id: x } && x@ == id
}

/// The to-do `id` is fetched to be shown.
pub open spec fn refetching(id: Seq<char>, s: Stage, a: Action) -> bool {
    s is Refetch && runs(a, Script::FindById, seq![id])
}

/// Starts to find the to-do that a command acts on: an empty selector is
/// refused; otherwise it is first looked up as an id.
pub open spec fn resolving(command: Command, s: Stage, a: Action) -> bool {
    let sel = selector_of(command);
    if trimmed(sel).len() == 0 {
        ends_invalid(s, a, empty_selector_message())
    } else {
        &&& s matches Stage::ById { command: c, selector: x } && c == command && x@ == sel
        &&& runs(a, Script::FindById, seq![sel])
    }
}

/// The update of the to-do `id`, with the notes known: the status is validated,
/// then the update script runs.
pub open spec fn updating(
    id: Seq<char>,
    name: Option<String>,
    notes: Option<String>,
    status: Option<String>,
    tags: Option<Vec<String>>,
    s: Stage,
    a: Action,
) -> bool {
    exists|u: Result<UpdateThingInput, ThingError>|
        #![trigger update_finish(name, notes, status, tags, u)]
        update_finish(name, notes, status, tags, u) && match u {
            Err(e) => ends_with(s, a, e),
            Ok(input) => awaiting_change(id, s) && runs(a, Script::Update, update_args(id, input)),
        }
}

/// What a command does once its to-do `t` is known.
pub open spec fn resolved(command: Command, t: Thing, s: Stage, a: Action) -> bool {
    match command {
        Command::Get(_) => ends_ok(s, a, Output::Thing { thing: t }),
        Command::Complete(_) => awaiting_change(t.id@, s) && runs(a, Script::Complete, seq![t.id@]),
        Command::Delete(_) => s == Stage::AwaitDelete { thing: t } && runs(
            a,
            Script::Delete,
            seq![t.id@],
        ),
        Command::Open(_) => s == Stage::AwaitOpen { thing: t } && runs(a, Script::Open, seq![t.id@]),
        Command::Move(m) => if trimmed(m.list_name@).len() == 0 {
            ends_invalid(s, a, empty_field_message("list"@))
        } else {
            &&& s matches Stage::MoveList { id, requested } && id@ == t.id@ && requested@ == trimmed(
                m.list_name@,
            )
            &&& runs(a, Script::Lists, seq![])
        },
        Command::Schedule(sa) => exists|r: Result<ScheduleTarget, ThingError>|
            #![trigger schedule_outcome(sa.when@, r)]
            schedule_outcome(sa.when@, r) && match r {
                Ok(w) => awaiting_change(t.id@, s) && runs(a, Script::Schedule, schedule_args(t.id@, w)),
                Err(e) => ends_with(s, a, e),
            },
        Command::Update(u) => exists|p: Result<UpdatePlan, ThingError>|
            #![trigger update_start(u, p)]
            update_start(u, p) && match p {
                Err(e) => ends_with(s, a, e),
                Ok(plan) => match plan.notes {
                    NotesChange::Read(src) => {
                        &&& s matches Stage::UpdateNotes { id, name, status, tags } && id@ == t.id@
                            && name == plan.name && status == plan.status && tags == plan.tags
                        &&& a == Action::Read(src)
                    },
                    NotesChange::Replace(n) => updating(
                        t.id@,
                        plan.name,
                        Some(n),
                        plan.status,
                        plan.tags,
                        s,
                        a,
                    ),
                    NotesChange::Keep => updating(t.id@, plan.name, None, plan.status, plan.tags, s, a),
                },
            },
        _ => false,
    }
}

/// A new to-do, with name and notes known: the list name is normalized, then
/// the lists are fetched to find it.
pub open spec fn creating_in_list(
    name: String,
    notes: Option<String>,
    list_name: String,
    tags: Vec<String>,
    s: Stage,
    a: Action,
) -> bool {
    if trimmed(list_name@).len() == 0 {
        ends_invalid(s, a, empty_field_message("list"@))
    } else {
        &&& s matches Stage::CreateList { name: n, notes: o, requested, tags: t } && n == name && o
            == notes && requested@ == trimmed(list_name@) && t == tags
        &&& runs(a, Script::Lists, seq![])
    }
}

/// How each command starts.
pub open spec fn begins(command: Command, s: Stage, a: Action) -> bool {
    match command {
        Command::Lists => s is AwaitLists && runs(a, Script::Lists, seq![]),
        Command::List(args) => match args.list_name {
            Some(n) => if trimmed(n@).len() == 0 {
                ends_invalid(s, a, empty_field_message("list"@))
            } else {
                &&& s matches Stage::ListingList { args: x, requested } && x == args && requested@
                    == trimmed(n@)
                &&& runs(a, Script::Lists, seq![])
            },
            None => s == Stage::ListingThings { args } && runs(a, Script::ListThings, seq![]),
        },
        Command::Create(c) => exists|p: Result<(String, NotesPlan), ThingError>|
            #![trigger create_start(c.name, c.notes, c.notes_file, p)]
            create_start(c.name, c.notes, c.notes_file, p) && match p {
                Err(e) => ends_with(s, a, e),
                Ok((name, NotesPlan::Known(notes))) => creating_in_list(
                    name,
                    notes,
                    c.list_name,
                    c.tags,
                    s,
                    a,
                ),
                Ok((name, NotesPlan::Read(src))) => s == Stage::CreateNotes {
                    name,
                    list_name: c.list_name,
                    tags: c.tags,
                } && a == Action::Read(src),
            },
        _ => resolving(command, s, a),
    }
}

/// The replies that a stage waits for (a failure can always come).
pub open spec fn expects(stage: Stage, reply: Reply) -> bool {
    reply is Failed || match stage {
        Stage::AwaitLists | Stage::ListingList { .. } | Stage::CreateList { .. } | Stage::MoveList {
            ..
        } => reply is Lists,
        Stage::ListingThings { .. } | Stage::ByExactName { .. } | Stage::ByFoldedName { .. } => reply is Things,
        Stage::ById { .. } | Stage::Refetch => reply is Thing,
        Stage::Done => false,
        _ => reply is Text,
    }
}

/// How a stage moves on with a reply.
pub open spec fn steps(stage: Stage, reply: Reply, s: Stage, a: Action) -> bool {
    match (stage, reply) {
        (Stage::AwaitLists, Reply::Lists(l)) => ends_ok(s, a, Output::Lists { lists: l }),
        (Stage::ListingList { args, requested }, Reply::Lists(l)) => exists|
            r: Result<String, ThingError>,
        |
            #![trigger list_selection(l@, requested@, r)]
            list_selection(l@, requested@, r) && match r {
                Ok(name) => s == Stage::ListingThings { args } && runs(
                    a,
                    Script::ListThingsInList,
                    seq![name@],
                ),
                Err(e) => ends_with(s, a, e),
            },
        (Stage::ListingThings { args }, Reply::Things(v)) => exists|
            r: Result<Vec<Thing>, ThingError>,
        |
            #![trigger listing_outcome(v@, args.status, args.tags, args.query, args.limit, r)]
            listing_outcome(v@, args.status, args.tags, args.query, args.limit, r) && match r {
                Ok(things) => ends_ok(s, a, Output::Things { things }),
                Err(e) => ends_with(s, a, e),
            },
        (Stage::ById { command, .. }, Reply::Thing(t)) => resolved(command, t, s, a),
        (Stage::ById { command, selector }, Reply::Failed(_)) => s == Stage::ByExactName {
            command,
            selector,
        } && runs(a, Script::ExactNameMatches, seq![selector@]),
        (Stage::ByExactName { command, selector }, Reply::Things(v)) => if v@.len() == 1 {
            resolved(command, v@[0], s, a)
        } else if v@.len() == 0 {
            s == Stage::ByFoldedName { command, selector } && runs(
                a,
                Script::CaseInsensitiveNameMatches,
                seq![selector@],
            )
        } else {
            ends_conflict(s, a, shared_name_message(selector@))
        },
        (Stage::ByFoldedName { command, selector }, Reply::Things(v)) => if v@.len() == 1 {
            resolved(command, v@[0], s, a)
        } else if v@.len() == 0 {
            ends_not_found(s, a, task_not_found_message(selector@))
        } else {
            ends_conflict(s, a, folded_conflict_message(selector@))
        },
        (Stage::CreateNotes { name, list_name, tags }, Reply::Text(notes)) => creating_in_list(
            name,
            Some(notes),
            list_name,
            tags,
            s,
            a,
        ),
        (Stage::CreateList { name, notes, requested, tags }, Reply::Lists(l)) => exists|
            r: Result<String, ThingError>,
        |
            #![trigger list_selection(l@, requested@, r)]
            list_selection(l@, requested@, r) && match r {
                Ok(list) => s is AwaitCreatedId && exists|nt: Vec<String>|
                    #![trigger normalized_tags(str_views(nt@), str_views(tags@))]
                    normalized_tags(str_views(nt@), str_views(tags@)) && runs(
                        a,
                        Script::Create,
                        create_args(CreateThingInput { list_name: list, name, notes, tags: nt }),
                    ),
                Err(e) => ends_with(s, a, e),
            },
        (Stage::AwaitCreatedId, Reply::Text(id)) => refetching(id@, s, a),
        (Stage::AwaitChange { id }, Reply::Text(_)) => refetching(id@, s, a),
        (Stage::Refetch, Reply::Thing(t)) => ends_ok(s, a, Output::Thing { thing: t }),
        (Stage::UpdateNotes { id, name, status, tags }, Reply::Text(notes)) => updating(
            id@,
            name,
            Some(notes),
            status,
            tags,
            s,
            a,
        ),
        (Stage::MoveList { id, requested }, Reply::Lists(l)) => exists|
            r: Result<String, ThingError>,
        |
            #![trigger list_selection(l@, requested@, r)]
            list_selection(l@, requested@, r) && match r {
                Ok(list) => awaiting_change(id@, s) && runs(a, Script::Move, seq![id@, list@]),
                Err(e) => ends_with(s, a, e),
            },
        (Stage::AwaitDelete { thing }, Reply::Text(_)) => ends_ok(
            s,
            a,
            Output::Deleted { deleted: true, thing },
        ),
        (Stage::AwaitOpen { thing }, Reply::Text(_)) => ends_ok(
            s,
            a,
            Output::Opened { opened: true, thing },
        ),
        (_, Reply::Failed(e)) => ends_with(s, a, e),
        _ => false,
    }
}

/// The stages that wait on the search for a to-do hold a command that acts on one.
pub open spec fn stage_ok(s: Stage) -> bool {
    match s {
        Stage::ById { command, .. } => targets_thing(command),
        Stage::ByExactName { command, .. } => targets_thing(command),
        Stage::ByFoldedName { command, .. } => targets_thing(command),
        _ => true,
    }
}

fn end_with(e: ThingError) -> (r: (Stage, Action))
    ensures
        ends_with(r.0, r.1, e),
{
    (Stage::Done, Action::Finish(Err(e)))
}

fn selector_text(command: &Command) -> (r: String)
    ensures
        r@ == selector_of(*command),
{
    match command {
        Command::Get(a) => a.selector.clone(),
        Command::Complete(a) => a.selector.clone(),
        Command::Delete(a) => a.selector.clone(),
        Command::Open(a) => a.selector.clone(),
        Command::Update(a) => a.selector.clone(),
        Command::Move(a) => a.selector.clone(),
        Command::Schedule(a) => a.selector.clone(),
        _ => String::new(),
    }
}

fn begin_resolve(command: Command) -> (r: (Stage, Action))
    requires
        targets_thing(command),
    ensures
        resolving(command, r.0, r.1),
        stage_ok(r.0),
{
    let selector = selector_text(&command);
    let trimmed_selector = trim(selector.as_str());
    if trimmed_selector.as_str().unicode_len() == 0 {
        return (
            Stage::Done,
            Action::Finish(
                Err(ThingError::InvalidInput(String::from_str("selector must not be empty"))),
            ),
        );
    }
    let call = ThingsApp::new().find_by_id(selector.as_str());
    (Stage::ById { command, selector }, Action::Run(call))
}

fn update_with_notes(
    id: String,
    name: Option<String>,
    notes: Option<String>,
    status: Option<String>,
    tags: Option<Vec<String>>,
) -> (r: (Stage, Action))
    ensures
        updating(id@, name, notes, status, tags, r.0, r.1),
{
    let u = build_update_input(name, notes, status, tags);
    let ghost ug = u;
    let r = match u {
        Err(e) => end_with(e),
        Ok(input) => {
            let call = ThingsApp::new().update(id.as_str(), input);
            (Stage::AwaitChange { id }, Action::Run(call))
        },
    };
    proof {
        assert(update_finish(name, notes, status, tags, ug));
    }
    r
}

fn after_resolved(command: Command, thing: Thing) -> (r: (Stage, Action))
    requires
        targets_thing(command),
    ensures
        resolved(command, thing, r.0, r.1),
        stage_ok(r.0),
{
    let app = ThingsApp::new();
    match command {
        Command::Get(_) => (Stage::Done, Action::Finish(Ok(Output::Thing { thing }))),
        Command::Complete(_) => {
            let call = app.complete(thing.id.as_str());
            (Stage::AwaitChange { id: thing.id }, Action::Run(call))
        },
        Command::Delete(_) => {
            let call = app.delete(thing.id.as_str());
            (Stage::AwaitDelete { thing }, Action::Run(call))
        },
        Command::Open(_) => {
            let call = app.open(thing.id.as_str());
            (Stage::AwaitOpen { thing }, Action::Run(call))
        },
        Command::Move(m) => match normalize_text(m.list_name, "list") {
            Ok(requested) => (Stage::MoveList { id: thing.id, requested }, Action::Run(app.lists())),
            Err(e) => end_with(e),
        },
        Command::Schedule(sa) => {
            let parsed = parse_schedule_target(sa.when.as_str());
            let ghost pg = parsed;
            let r = match parsed {
                Ok(when) => {
                    let call = app.schedule(thing.id.as_str(), when);
                    (Stage::AwaitChange { id: thing.id }, Action::Run(call))
                },
                Err(e) => end_with(e),
            };
            proof {
                assert(schedule_outcome(sa.when@, pg));
            }
            r
        },
        Command::Update(u) => {
            let ghost ug = u;
            let planned = plan_update(u);
            let ghost pg = planned;
            let r = match planned {
                Err(e) => end_with(e),
                Ok(plan) => {
                    let UpdatePlan { name, notes, status, tags } = plan;
                    match notes {
                        NotesChange::Read(src) => (
                            Stage::UpdateNotes { id: thing.id, name, status, tags },
                            Action::Read(src),
                        ),
                        NotesChange::Replace(n) => update_with_notes(
                            thing.id,
                            name,
                            Some(n),
                            status,
                            tags,
                        ),
                        NotesChange::Keep => update_with_notes(thing.id, name, None, status, tags),
                    }
                },
            };
            proof {
                assert(update_start(ug, pg));
            }
            r
        },
        _ => {
            proof {
                assert(false);
            }
            (Stage::Done, Action::Finish(Ok(Output::Thing { thing })))
        },
    }
}

fn create_in_list(name: String, notes: Option<String>, list_name: String, tags: Vec<String>) -> (r: (
    Stage,
    Action,
))
    ensures
        creating_in_list(name, notes, list_name, tags, r.0, r.1),
{
    match normalize_text(list_name, "list") {
        Ok(requested) => (
            Stage::CreateList { name, notes, requested, tags },
            Action::Run(ThingsApp::new().lists()),
        ),
        Err(e) => end_with(e),
    }
}

/// Starts a command: the first action, and the stage that waits for its reply.
pub fn start(command: Command) -> (r: (Stage, Action))
    ensures
        begins(command, r.0, r.1),
        stage_ok(r.0),
{
    let app = ThingsApp::new();
    match command {
        Command::Lists => (Stage::AwaitLists, Action::Run(app.lists())),
        Command::List(args) => {
            let requested = match &args.list_name {
                Some(n) => Some(normalize_text(n.clone(), "list")),
                None => None,
            };
            match requested {
                Some(Ok(requested)) => (
                    Stage::ListingList { args, requested },
                    Action::Run(app.lists()),
                ),
                Some(Err(e)) => end_with(e),
                None => (Stage::ListingThings { args }, Action::Run(app.list_things())),
            }
        },
        Command::Create(c) => {
            let ghost cg = c;
            let CreateArgs { name, notes, notes_file, list_name, tags } = c;
            let planned = plan_create(name, notes, notes_file);
            let ghost pg = planned;
            let r = match planned {
                Err(e) => end_with(e),
                Ok((name, NotesPlan::Known(notes))) => create_in_list(name, notes, list_name, tags),
                Ok((name, NotesPlan::Read(src))) => (
                    Stage::CreateNotes { name, list_name, tags },
                    Action::Read(src),
                ),
            };
            proof {
                assert(create_start(cg.name, cg.notes, cg.notes_file, pg));
            }
            r
        },
        _ => begin_resolve(command),
    }
}

fn take_single(v: Vec<Thing>) -> (t: Thing)
    requires
        v@.len() == 1,
    ensures
        t == v@[0],
{
    let mut v = v;
    v.pop().unwrap()
}

/// Moves a command on with the reply to its last action.
pub fn step(stage: Stage, reply: Reply) -> (r: (Stage, Action))
    requires
        expects(stage, reply),
        stage_ok(stage),
    ensures
        steps(stage, reply, r.0, r.1),
        stage_ok(r.0),
{
    let app = ThingsApp::new();
    match (stage, reply) {
        (Stage::AwaitLists, Reply::Lists(lists)) => (
            Stage::Done,
            Action::Finish(Ok(Output::Lists { lists })),
        ),
        (Stage::ListingList { args, requested }, Reply::Lists(lists)) => {
            let chosen = select_list_name(&lists, requested.as_str());
            let ghost cg = chosen;
            let r = match chosen {
                Ok(name) => {
                    let call = app.list_things_in_list(name.as_str());
                    (Stage::ListingThings { args }, Action::Run(call))
                },
                Err(e) => end_with(e),
            };
            proof {
                assert(list_selection(lists@, requested@, cg));
            }
            r
        },
        (Stage::ListingThings { args }, Reply::Things(things)) => {
            let ghost ag = args;
            let ghost tg = things@;
            let ListArgs { query, status, tags, list_name: _, limit } = args;
            let listed = finish_listing(things, status, tags, query, limit);
            let ghost lg = listed;
            let r = match listed {
                Ok(things) => (Stage::Done, Action::Finish(Ok(Output::Things { things }))),
                Err(e) => end_with(e),
            };
            proof {
                assert(listing_outcome(tg, ag.status, ag.tags, ag.query, ag.limit, lg));
            }
            r
        },
        (Stage::ById { command, selector: _ }, Reply::Thing(t)) => after_resolved(command, t),
        (Stage::ById { command, selector }, Reply::Failed(_)) => {
            let call = app.find_exact_name_matches(selector.as_str());
            (Stage::ByExactName { command, selector }, Action::Run(call))
        },
        (Stage::ByExactName { command, selector }, Reply::Things(things)) => {
            if things.len() == 1 {
                after_resolved(command, take_single(things))
            } else if things.len() == 0 {
                let call = app.find_case_insensitive_name_matches(selector.as_str());
                (Stage::ByFoldedName { command, selector }, Action::Run(call))
            } else {
                end_with(
                    ThingError::Conflict(
                        String::from_str("multiple Things tasks share the name: ").concat(
                            selector.as_str(),
                        ),
                    ),
                )
            }
        },
        (Stage::ByFoldedName { command, selector }, Reply::Things(things)) => {
            if things.len() == 1 {
                after_resolved(command, take_single(things))
            } else if things.len() == 0 {
                end_with(
                    ThingError::NotFound(
                        String::from_str("Things task not found: ").concat(selector.as_str()),
                    ),
                )
            } else {
                end_with(
                    ThingError::Conflict(
                        String::from_str(
                            "multiple Things tasks match selector case-insensitively: ",
                        ).concat(selector.as_str()),
                    ),
                )
            }
        },
        (Stage::CreateNotes { name, list_name, tags }, Reply::Text(notes)) => create_in_list(
            name,
            Some(notes),
            list_name,
            tags,
        ),
        (Stage::CreateList { name, notes, requested, tags }, Reply::Lists(lists)) => {
            let chosen = select_list_name(&lists, requested.as_str());
            let ghost cg = chosen;
            let r = match chosen {
                Ok(list_name) => {
                    let ghost tg = tags;
                    let normalized = normalize_tags(tags);
                    let ghost ng = normalized;
                    let call = app.create(
                        CreateThingInput { list_name, name, notes, tags: normalized },
                    );
                    proof {
                        assert(normalized_tags(str_views(ng@), str_views(tg@)));
                    }
                    (Stage::AwaitCreatedId, Action::Run(call))
                },
                Err(e) => end_with(e),
            };
            proof {
                assert(list_selection(lists@, requested@, cg));
            }
            r
        },
        (Stage::AwaitCreatedId, Reply::Text(id)) => (
            Stage::Refetch,
            Action::Run(app.find_by_id(id.as_str())),
        ),
        (Stage::AwaitChange { id }, Reply::Text(_)) => (
            Stage::Refetch,
            Action::Run(app.find_by_id(id.as_str())),
        ),
        (Stage::Refetch, Reply::Thing(thing)) => (
            Stage::Done,
            Action::Finish(Ok(Output::Thing { thing })),
        ),
        (Stage::UpdateNotes { id, name, status, tags }, Reply::Text(notes)) => update_with_notes(
            id,
            name,
            Some(notes),
            status,
            tags,
        ),
        (Stage::MoveList { id, requested }, Reply::Lists(lists)) => {
            let chosen = select_list_name(&lists, requested.as_str());
            let ghost cg = chosen;
            let r = match chosen {
                Ok(list_name) => {
                    let call = app.move_to(id.as_str(), list_name.as_str());
                    (Stage::AwaitChange { id }, Action::Run(call))
                },
                Err(e) => end_with(e),
            };
            proof {
                assert(list_selection(lists@, requested@, cg));
            }
            r
        },
        (Stage::AwaitDelete { thing }, Reply::Text(_)) => (
            Stage::Done,
            Action::Finish(Ok(Output::Deleted { deleted: true, thing })),
        ),
        (Stage::AwaitOpen { thing }, Reply::Text(_)) => (
            Stage::Done,
            Action::Finish(Ok(Output::Opened { opened: true, thing })),
        ),
        (_, Reply::Failed(e)) => end_with(e),
        (_, _) => {
            proof {
                assert(false);
            }
            (Stage::Done, Action::Finish(Err(ThingError::Automation(String::new()))))
        },
    }
}

/// How many replies a stage can still need, at most.
pub open spec fn remaining_steps(s: Stage) -> nat {
    match s {
        Stage::Done => 0,
        Stage::AwaitLists | Stage::ListingThings { .. } | Stage::Refetch => 1,
        Stage::ListingList { .. } | Stage::AwaitCreatedId | Stage::AwaitChange { .. }
        | Stage::AwaitDelete { .. } | Stage::AwaitOpen { .. } => 2,
        Stage::CreateList { .. } | Stage::UpdateNotes { .. } | Stage::MoveList { .. } => 3,
        Stage::CreateNotes { .. } => 4,
        Stage::ByFoldedName { .. } => 5,
        Stage::ByExactName { .. } => 6,
        Stage::ById { .. } => 7,
    }
}

/// The action finishes the command exactly when the stage is over.
pub open spec fn finishes_when_done(s: Stage, a: Action) -> bool {
    (s is Done) == (a is Finish)
}

proof fn lemma_updating_progress(
    id: Seq<char>,
    name: Option<String>,
    notes: Option<String>,
    status: Option<String>,
    tags: Option<Vec<String>>,
    s: Stage,
    a: Action,
)
    requires
        updating(id, name, notes, status, tags, s, a),
    ensures
        remaining_steps(s) <= 2,
        finishes_when_done(s, a),
{
    let u = choose|u: Result<UpdateThingInput, ThingError>|
        #![trigger update_finish(name, notes, status, tags, u)]
        update_finish(name, notes, status, tags, u) && match u {
            Err(e) => ends_with(s, a, e),
            Ok(input) => awaiting_change(id, s) && runs(a, Script::Update, update_args(id, input)),
        };
}

proof fn lemma_resolved_progress(command: Command, t: Thing, s: Stage, a: Action)
    requires
        resolved(command, t, s, a),
    ensures
        remaining_steps(s) <= 3,
        finishes_when_done(s, a),
{
    match command {
        Command::Schedule(sa) => {
            let r = choose|r: Result<ScheduleTarget, ThingError>|
                #![trigger schedule_outcome(sa.when@, r)]
                schedule_outcome(sa.when@, r) && match r {
                    Ok(w) => awaiting_change(t.id@, s) && runs(
                        a,
                        Script::Schedule,
                        schedule_args(t.id@, w),
                    ),
                    Err(e) => ends_with(s, a, e),
                };
        },
        Command::Update(u) => {
            let p = choose|p: Result<UpdatePlan, ThingError>|
                #![trigger update_start(u, p)]
                update_start(u, p) && match p {
                    Err(e) => ends_with(s, a, e),
                    Ok(plan) => match plan.notes {
                        NotesChange::Read(src) => {
                            &&& s matches Stage::UpdateNotes { id, name, status, tags } && id@
                                == t.id@ && name == plan.name && status == plan.status && tags
                                == plan.tags
                            &&& a == Action::Read(src)
                        },
                        NotesChange::Replace(n) => updating(
                            t.id@,
                            plan.name,
                            Some(n),
                            plan.status,
                            plan.tags,
                            s,
                            a,
                        ),
                        NotesChange::Keep => updating(
                            t.id@,
                            plan.name,
                            None,
                            plan.status,
                            plan.tags,
                            s,
                            a,
                        ),
                    },
                };
            match p {
                Ok(plan) => match plan.notes {
                    NotesChange::Replace(n) => {
                        lemma_updating_progress(t.id@, plan.name, Some(n), plan.status, plan.tags, s, a);
                    },
                    NotesChange::Keep => {
                        lemma_updating_progress(t.id@, plan.name, None, plan.status, plan.tags, s, a);
                    },
                    _ => {},
                },
                _ => {},
            }
        },
        _ => {},
    }
}

/// Every command starts with at most seven replies ahead of it, and finishes
/// at once exactly when it has nothing to wait for.
pub proof fn lemma_start_bounded(command: Command, s: Stage, a: Action)
    requires
        begins(command, s, a),
    ensures
        remaining_steps(s) <= 7,
        finishes_when_done(s, a),
{
    match command {
        Command::Create(c) => {
            let p = choose|p: Result<(String, NotesPlan), ThingError>|
                #![trigger create_start(c.name, c.notes, c.notes_file, p)]
                create_start(c.name, c.notes, c.notes_file, p) && match p {
                    Err(e) => ends_with(s, a, e),
                    Ok((name, NotesPlan::Known(notes))) => creating_in_list(
                        name,
                        notes,
                        c.list_name,
                        c.tags,
                        s,
                        a,
                    ),
                    Ok((name, NotesPlan::Read(src))) => s == Stage::CreateNotes {
                        name,
                        list_name: c.list_name,
                        tags: c.tags,
                    } && a == Action::Read(src),
                };
        },
        _ => {},
    }
}

/// Every reply brings a command closer to its end: the stage it moves to needs
/// fewer replies than the one it leaves, and the command finishes exactly when
/// it reaches the end. So a command ends after at most seven replies.
pub proof fn lemma_step_progress(stage: Stage, reply: Reply, s: Stage, a: Action)
    requires
        !(stage is Done),
        steps(stage, reply, s, a),
    ensures
        remaining_steps(s) < remaining_steps(stage),
        finishes_when_done(s, a),
{
    match (stage, reply) {
        (Stage::ListingList { args, requested }, Reply::Lists(l)) => {
            let r = choose|r: Result<String, ThingError>|
                #![trigger list_selection(l@, requested@, r)]
                list_selection(l@, requested@, r) && match r {
                    Ok(name) => s == Stage::ListingThings { args } && runs(
                        a,
                        Script::ListThingsInList,
                        seq![name@],
                    ),
                    Err(e) => ends_with(s, a, e),
                };
        },
        (Stage::ListingThings { args }, Reply::Things(v)) => {
            let r = choose|r: Result<Vec<Thing>, ThingError>|
                #![trigger listing_outcome(v@, args.status, args.tags, args.query, args.limit, r)]
                listing_outcome(v@, args.status, args.tags, args.query, args.limit, r) && match r {
                    Ok(things) => ends_ok(s, a, Output::Things { things }),
                    Err(e) => ends_with(s, a, e),
                };
        },
        (Stage::ById { command, .. }, Reply::Thing(t)) => {
            lemma_resolved_progress(command, t, s, a);
        },
        (Stage::ByExactName { command, selector }, Reply::Things(v)) => {
            if v@.len() == 1 {
                lemma_resolved_progress(command, v@[0], s, a);
            }
        },
        (Stage::ByFoldedName { command, selector }, Reply::Things(v)) => {
            if v@.len() == 1 {
                lemma_resolved_progress(command, v@[0], s, a);
            }
        },
        (Stage::CreateList { name, notes, requested, tags }, Reply::Lists(l)) => {
            let r = choose|r: Result<String, ThingError>|
                #![trigger list_selection(l@, requested@, r)]
                list_selection(l@, requested@, r) && match r {
                    Ok(list) => s is AwaitCreatedId && exists|nt: Vec<String>|
                        #![trigger normalized_tags(str_views(nt@), str_views(tags@))]
                        normalized_tags(str_views(nt@), str_views(tags@)) && runs(
                            a,
                            Script::Create,
                            create_args(CreateThingInput { list_name: list, name, notes, tags: nt }),
                        ),
                    Err(e) => ends_with(s, a, e),
                };
        },
        (Stage::UpdateNotes { id, name, status, tags }, Reply::Text(notes)) => {
            lemma_updating_progress(id@, name, Some(notes), status, tags, s, a);
        },
        (Stage::MoveList { id, requested }, Reply::Lists(l)) => {
            let r = choose|r: Result<String, ThingError>|
                #![trigger list_selection(l@, requested@, r)]
                list_selection(l@, requested@, r) && match r {
                    Ok(list) => awaiting_change(id@, s) && runs(a, Script::Move, seq![id@, list@]),
                    Err(e) => ends_with(s, a, e),
                };
        },
        _ => {},
    }
}

/// Whether `step` takes this reply in this stage.
pub fn accepts(stage: &Stage, reply: &Reply) -> (r: bool)
    ensures
        r == (expects(*stage, *reply) && stage_ok(*stage)),
{
    let fits = match reply {
        Reply::Failed(_) => true,
        Reply::Lists(_) => matches!(
            stage,
            Stage::AwaitLists | Stage::ListingList { .. } | Stage::CreateList { .. } | Stage::MoveList { .. }
        ),
        Reply::Things(_) => matches!(
            stage,
            Stage::ListingThings { .. } | Stage::ByExactName { .. } | Stage::ByFoldedName { .. }
        ),
        Reply::Thing(_) => matches!(stage, Stage::ById { .. } | Stage::Refetch),
        Reply::Text(_) => matches!(
            stage,
            Stage::CreateNotes { .. } | Stage::AwaitCreatedId | Stage::AwaitChange { .. }
            | Stage::UpdateNotes { .. } | Stage::AwaitDelete { .. } | Stage::AwaitOpen { .. }
        ),
    };
    let targets = match stage {
        Stage::ById { command, .. } | Stage::ByExactName { command, .. } | Stage::ByFoldedName {
            command,
            ..
        } => !matches!(command, Command::Lists | Command::List(_) | Command::Create(_)),
        _ => true,
    };
    fits && targets
}

/// The reply that a search stage gets when Things answers from the to-dos
/// `snapshot`: the first to-do with the id (a failure when there is none), the
/// to-dos named exactly so, the to-dos named so ignoring ASCII case.
pub open spec fn answers_from(snapshot: Seq<Thing>, stage: Stage, reply: Reply) -> bool {
    match stage {
        Stage::ById { selector, .. } => {
            let by_id = snapshot.filter(id_is(selector@));
            if by_id.len() > 0 {
                reply == Reply::Thing(by_id[0])
            } else {
                reply is Failed
            }
        },
        Stage::ByExactName { selector, .. } => reply matches Reply::Things(v) && v@
            == snapshot.filter(name_is(selector@)),
        Stage::ByFoldedName { selector, .. } => reply matches Reply::Things(v) && v@
            == snapshot.filter(name_is_folded(selector@)),
        _ => false,
    }
}

/// The search for a to-do ended: with the to-do found (and the command going on
/// with it), or with an error.
pub open spec fn search_ended(command: Command, s: Stage, a: Action, r: Result<Thing, ThingError>) -> bool {
    match r {
        Ok(t) => resolved(command, t, s, a),
        Err(e) => ends_with(s, a, e),
    }
}

/// The staged search for a to-do (by id, then by exact name, then by name
/// ignoring case, each asked of Things in turn) ends as `resolve_selector` does
/// on the same to-dos: when every reply comes from one snapshot of to-dos, the
/// search ends, after at most three replies, with the to-do that selecting out
/// of the snapshot gives, or with the error that it gives.
pub proof fn lemma_staged_search_agrees(
    snapshot: Seq<Thing>,
    command: Command,
    s0: Stage,
    a0: Action,
    reply1: Reply,
    s1: Stage,
    a1: Action,
    reply2: Reply,
    s2: Stage,
    a2: Action,
    reply3: Reply,
    s3: Stage,
    a3: Action,
)
    requires
        targets_thing(command),
        resolving(command, s0, a0),
        !(s0 is Done) ==> steps(s0, reply1, s1, a1) && answers_from(snapshot, s0, reply1),
        s1 is ByExactName ==> steps(s1, reply2, s2, a2) && answers_from(snapshot, s1, reply2),
        s2 is ByFoldedName ==> steps(s2, reply3, s3, a3) && answers_from(snapshot, s2, reply3),
    ensures
        exists|r: Result<Thing, ThingError>|
            #![trigger selection(snapshot, selector_of(command), r)]
            selection(snapshot, selector_of(command), r) && {
                ||| search_ended(command, s0, a0, r)
                ||| !(s0 is Done) && search_ended(command, s1, a1, r)
                ||| s1 is ByExactName && search_ended(command, s2, a2, r)
                ||| s1 is ByExactName && s2 is ByFoldedName && search_ended(command, s3, a3, r)
            },
{
    let sel = selector_of(command);
    let by_id = snapshot.filter(id_is(sel));
    let exact = snapshot.filter(name_is(sel));
    let folded = snapshot.filter(name_is_folded(sel));
    if s0 is Done {
        let e = error_of(a0)->0;
        assert(a0 == Action::Finish(Err::<Output, ThingError>(e)));
        assert(selection(snapshot, sel, Err(e)));
        assert(search_ended(command, s0, a0, Err(e)));
    } else if by_id.len() > 0 {
        assert(reply1 == Reply::Thing(by_id[0]));
        assert(selection(snapshot, sel, Ok(by_id[0])));
        assert(search_ended(command, s1, a1, Ok(by_id[0])));
    } else {
        assert(s1 matches Stage::ByExactName { command: c, selector: x } && c == command && x@ == sel);
        let v = reply2->Things_0;
        assert(v@ == exact);
        if exact.len() == 1 {
            assert(selection(snapshot, sel, Ok(exact[0])));
            assert(search_ended(command, s2, a2, Ok(exact[0])));
        } else if exact.len() > 1 {
            let e = error_of(a2)->0;
            assert(a2 == Action::Finish(Err::<Output, ThingError>(e)));
            assert(selection(snapshot, sel, Err(e)));
            assert(search_ended(command, s2, a2, Err(e)));
        } else {
            assert(s2 matches Stage::ByFoldedName { command: c, selector: x } && c == command && x@
                == sel);
            let w = reply3->Things_0;
            assert(w@ == folded);
            if folded.len() == 1 {
                assert(selection(snapshot, sel, Ok(folded[0])));
                assert(search_ended(command, s3, a3, Ok(folded[0])));
            } else {
                let e = error_of(a3)->0;
                assert(a3 == Action::Finish(Err::<Output, ThingError>(e)));
                assert(selection(snapshot, sel, Err(e)));
                assert(search_ended(command, s3, a3, Err(e)));
            }
        }
    }
}

/// Listing with the raw tags or with their normalized form gives the same
/// result: the listing stage moves on alike with the same to-dos. (Blank tags
/// thus filter nothing, and the order and repetition of tags do not matter.)
pub proof fn lemma_list_things_normalized_tags(
    args: ListArgs,
    args2: ListArgs,
    things: Vec<Thing>,
    s: Stage,
    a: Action,
)
    requires
        args2.query == args.query,
        args2.status == args.status,
        args2.list_name == args.list_name,
        args2.limit == args.limit,
        normalized_tags(str_views(args2.tags@), str_views(args.tags@)),
    ensures
        steps(Stage::ListingThings { args }, Reply::Things(things), s, a) == steps(
            Stage::ListingThings { args: args2 },
            Reply::Things(things),
            s,
            a,
        ),
{
    let lhs = steps(Stage::ListingThings { args }, Reply::Things(things), s, a);
    let rhs = steps(Stage::ListingThings { args: args2 }, Reply::Things(things), s, a);
    if lhs {
        let r = choose|r: Result<Vec<Thing>, ThingError>|
            listing_outcome(things@, args.status, args.tags, args.query, args.limit, r) && match r {
                Ok(v) => ends_ok(s, a, Output::Things { things: v }),
                Err(e) => ends_with(s, a, e),
            };
        lemma_listing_normalized_tags_same(things@, args.status, args.tags, args2.tags, args.query, args.limit, r);
        assert(rhs);
    }
    if rhs {
        let r = choose|r: Result<Vec<Thing>, ThingError>|
            listing_outcome(things@, args2.status, args2.tags, args2.query, args2.limit, r) && match r {
                Ok(v) => ends_ok(s, a, Output::Things { things: v }),
                Err(e) => ends_with(s, a, e),
            };
        lemma_listing_normalized_tags_same(things@, args.status, args.tags, args2.tags, args.query, args.limit, r);
        assert(lhs);
    }
}

} // verus!
