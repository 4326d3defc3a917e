use vstd::prelude::*;

use crate::error::ThingError;
use crate::model::str_views;
use crate::scripts::{
    CASE_INSENSITIVE_NAME_MATCHES_BODY, COMPLETE_THING_BODY, CREATE_THING_BODY, DELETE_THING_BODY,
    EXACT_NAME_MATCHES_BODY, FIND_THING_BY_ID_BODY, LISTS_BODY, LIST_THINGS_BODY,
    LIST_THINGS_IN_LIST_BODY, MOVE_THING_BODY, OPEN_THING_BODY, SCHEDULE_THING_BODY,
    SHARED_HELPERS, UPDATE_THING_BODY,
};
use crate::text::{i32_text, int_text, join, joined, trim, trimmed, u32_text};

verus! {

/// The Things 3 app, driven through AppleScript. Each operation is described by
/// the script it runs and the arguments it hands that script.
pub struct ThingsApp;

/// What creating a to-do needs.
#[derive(Debug)]
pub struct CreateThingInput {
    pub list_name: String,
    pub name: String,
    pub notes: Option<String>,
    pub tags: Vec<String>,
}

/// What updating a to-do changes; `None` leaves a field as it is.
#[derive(Debug)]
pub struct UpdateThingInput {
    pub name: Option<String>,
    pub notes: Option<String>,
    pub status: Option<String>,
    pub tags: Option<Vec<String>>,
}

/// A local date and time to schedule a to-do for.
#[derive(Debug, Clone, Copy)]
pub struct ScheduleTarget {
    pub year: i32,
    pub month: u32,
    pub day: u32,
    pub hour: u32,
    pub minute: u32,
    pub second: u32,
}

/// The scripts the app runs.
#[derive(Debug, Clone, Copy, PartialEq, Eq, Structural)]
pub enum Script {
    Lists,
    ListThings,
    ListThingsInList,
    FindById,
    ExactNameMatches,
    CaseInsensitiveNameMatches,
    Create,
    Update,
    Complete,
    Move,
    Schedule,
    Delete,
    Open,
}

/// What a script prints on success.
#[derive(Debug, Clone, Copy, PartialEq, Eq, Structural)]
pub enum ScriptOutput {
    /// A JSON array of lists.
    ListsJson,
    /// A JSON array of to-dos.
    ThingsJson,
    /// One to-do as a JSON object.
    ThingJson,
    /// Plain text (an id).
    Text,
}

pub open spec fn script_body(s: Script) -> Seq<char> {
    match s {
        Script::Lists => LISTS_BODY@,
        Script::ListThings => LIST_THINGS_BODY@,
        Script::ListThingsInList => LIST_THINGS_IN_LIST_BODY@,
        Script::FindById => FIND_THING_BY_ID_BODY@,
        Script::ExactNameMatches => EXACT_NAME_MATCHES_BODY@,
        Script::CaseInsensitiveNameMatches => CASE_INSENSITIVE_NAME_MATCHES_BODY@,
        Script::Create => CREATE_THING_BODY@,
        Script::Update => UPDATE_THING_BODY@,
        Script::Complete => COMPLETE_THING_BODY@,
        Script::Move => MOVE_THING_BODY@,
        Script::Schedule => SCHEDULE_THING_BODY@,
        Script::Delete => DELETE_THING_BODY@,
        Script::Open => OPEN_THING_BODY@,
    }
}

pub open spec fn script_output(s: Script) -> ScriptOutput {
    match s {
        Script::Lists => ScriptOutput::ListsJson,
        Script::ListThings | Script::ListThingsInList | Script::ExactNameMatches
        | Script::CaseInsensitiveNameMatches => ScriptOutput::ThingsJson,
        Script::FindById => ScriptOutput::ThingJson,
        _ => ScriptOutput::Text,
    }
}

impl Script {
    /// The script's own handler, which follows the shared helpers.
    pub fn body(&self) -> (r: &'static str)
        ensures
            r@ == script_body(*self),
    {
        match self {
            Script::Lists => LISTS_BODY,
            Script::ListThings => LIST_THINGS_BODY,
            Script::ListThingsInList => LIST_THINGS_IN_LIST_BODY,
            Script::FindById => FIND_THING_BY_ID_BODY,
            Script::ExactNameMatches => EXACT_NAME_MATCHES_BODY,
            Script::CaseInsensitiveNameMatches => CASE_INSENSITIVE_NAME_MATCHES_BODY,
            Script::Create => CREATE_THING_BODY,
            Script::Update => UPDATE_THING_BODY,
            Script::Complete => COMPLETE_THING_BODY,
            Script::Move => MOVE_THING_BODY,
            Script::Schedule => SCHEDULE_THING_BODY,
            Script::Delete => DELETE_THING_BODY,
            Script::Open => OPEN_THING_BODY,
        }
    }

    /// How the script's output is to be read.
    pub fn output(&self) -> (r: ScriptOutput)
        ensures
            r == script_output(*self),
    {
        match self {
            Script::Lists => ScriptOutput::ListsJson,
            Script::ListThings | Script::ListThingsInList | Script::ExactNameMatches
            | Script::CaseInsensitiveNameMatches => ScriptOutput::ThingsJson,
            Script::FindById => ScriptOutput::ThingJson,
            _ => ScriptOutput::Text,
        }
    }
}

/// One run of a script with its arguments (`osascript -e SOURCE -- ARGS...`).
#[derive(Debug)]
pub struct ScriptCall {
    pub script: Script,
    pub args: Vec<String>,
}

impl ScriptCall {
    /// The full program: the shared helpers, a line break, the script's handler.
    pub fn source(&self) -> (r: String)
        ensures
            r@ == SHARED_HELPERS@ + "\n"@ + script_body(self.script),
    {
        String::from_str(SHARED_HELPERS).concat("\n").concat(self.script.body())
    }
}

/// The argument that tells a script whether a field was given.
pub open spec fn flag_text(value: bool) -> Seq<char> {
    if value {
        "1"@
    } else {
        "0"@
    }
}

pub fn flag(value: bool) -> (r: &'static str)
    ensures
        r@ == flag_text(value),
{
    if value {
        "1"
    } else {
        "0"
    }
}

pub open spec fn opt_text(o: Option<String>) -> Seq<char> {
    match o {
        Some(s) => s@,
        None => Seq::empty(),
    }
}

/// The text of a field that may be absent: the empty string when it is.
fn text_or_empty(o: Option<String>) -> (r: String)
    ensures
        r@ == opt_text(o),
{
    match o {
        Some(s) => s,
        None => String::new(),
    }
}

pub open spec fn tags_text(tags: Option<Vec<String>>) -> Seq<char> {
    match tags {
        Some(t) => joined(str_views(t@), ", "@),
        None => Seq::empty(),
    }
}

/// The arguments of the update script.
pub open spec fn update_args(task_id: Seq<char>, input: UpdateThingInput) -> Seq<Seq<char>> {
    seq![
        task_id,
        opt_text(input.name),
        flag_text(input.name is Some),
        opt_text(input.notes),
        flag_text(input.notes is Some),
        opt_text(input.status),
        flag_text(input.status is Some),
        tags_text(input.tags),
        flag_text(input.tags is Some),
    ]
}

/// The arguments of the schedule script.
pub open spec fn schedule_args(task_id: Seq<char>, when: ScheduleTarget) -> Seq<Seq<char>> {
    seq![
        task_id,
        int_text(when.year as int),
        int_text(when.month as int),
        int_text(when.day as int),
        int_text(when.hour as int),
        int_text(when.minute as int),
        int_text(when.second as int),
    ]
}

/// The arguments of the create script.
pub open spec fn create_args(input: CreateThingInput) -> Seq<Seq<char>> {
    seq![input.list_name@, input.name@, opt_text(input.notes), joined(str_views(input.tags@), ", "@)]
}

pub open spec fn call_is(c: ScriptCall, s: Script, args: Seq<Seq<char>>) -> bool {
    c.script == s && str_views(c.args@) == args
}

fn call1(script: Script, a: &str) -> (c: ScriptCall)
    ensures
        call_is(c, script, seq![a@]),
{
    let mut args: Vec<String> = Vec::new();
    args.push(String::from_str(a));
    proof {
        assert(str_views(args@) =~= seq![a@]);
    }
    ScriptCall { script, args }
}

impl ThingsApp {
    pub fn new() -> (r: Self) {
        ThingsApp
    }

    pub fn lists(&self) -> (c: ScriptCall)
        ensures
            call_is(c, Script::Lists, seq![]),
    {
        let c = ScriptCall { script: Script::Lists, args: Vec::new() };
        proof {
            assert(str_views(c.args@) =~= seq![]);
        }
        c
    }

    pub fn list_things(&self) -> (c: ScriptCall)
        ensures
            call_is(c, Script::ListThings, seq![]),
    {
        let c = ScriptCall { script: Script::ListThings, args: Vec::new() };
        proof {
            assert(str_views(c.args@) =~= seq![]);
        }
        c
    }

    pub fn list_things_in_list(&self, list_name: &str) -> (c: ScriptCall)
        ensures
            call_is(c, Script::ListThingsInList, seq![list_name@]),
    {
        call1(Script::ListThingsInList, list_name)
    }

    pub fn find_by_id(&self, task_id: &str) -> (c: ScriptCall)
        ensures
            call_is(c, Script::FindById, seq![task_id@]),
    {
        call1(Script::FindById, task_id)
    }

    pub fn find_exact_name_matches(&self, name: &str) -> (c: ScriptCall)
        ensures
            call_is(c, Script::ExactNameMatches, seq![name@]),
    {
        call1(Script::ExactNameMatches, name)
    }

    pub fn find_case_insensitive_name_matches(&self, name: &str) -> (c: ScriptCall)
        ensures
            call_is(c, Script::CaseInsensitiveNameMatches, seq![name@]),
    {
        call1(Script::CaseInsensitiveNameMatches, name)
    }

    /// Creates a to-do in a list: the script prints the new to-do's id.
    pub fn create(&self, input: CreateThingInput) -> (c: ScriptCall)
        ensures
            call_is(c, Script::Create, create_args(input)),
    {
        let ghost input_view = input;
        let tags = join(&input.tags, ", ");
        let notes = text_or_empty(input.notes);
        let mut args: Vec<String> = Vec::new();
        args.push(input.list_name);
        args.push(input.name);
        args.push(notes);
        args.push(tags);
        proof {
            assert(str_views(args@) =~= seq![input_view.list_name@, input_view.name@, opt_text(input_view.notes), joined(str_views(input_view.tags@), ", "@)]);
        }
        ScriptCall { script: Script::Create, args }
    }

    /// Changes the given fields of a to-do; each value travels with a flag that
    /// says whether it was given.
    pub fn update(&self, task_id: &str, input: UpdateThingInput) -> (c: ScriptCall)
        ensures
            call_is(c, Script::Update, update_args(task_id@, input)),
    {
        let ghost input_view = input;
        let name_was_provided = input.name.is_some();
        let notes_were_provided = input.notes.is_some();
        let status_was_provided = input.status.is_some();
        let tags_were_provided = input.tags.is_some();
        let name = text_or_empty(input.name);
        let notes = text_or_empty(input.notes);
        let status = text_or_empty(input.status);
        let tags = match input.tags {
            Some(t) => join(&t, ", "),
            None => String::new(),
        };
        let mut args: Vec<String> = Vec::new();
        args.push(String::from_str(task_id));
        args.push(name);
        args.push(String::from_str(flag(name_was_provided)));
        args.push(notes);
        args.push(String::from_str(flag(notes_were_provided)));
        args.push(status);
        args.push(String::from_str(flag(status_was_provided)));
        args.push(tags);
        args.push(String::from_str(flag(tags_were_provided)));
        proof {
            assert(str_views(args@) =~= seq![
                task_id@,
                opt_text(input_view.name),
                flag_text(input_view.name is Some),
                opt_text(input_view.notes),
                flag_text(input_view.notes is Some),
                opt_text(input_view.status),
                flag_text(input_view.status is Some),
                tags_text(input_view.tags),
                flag_text(input_view.tags is Some),
            ]);
        }
        ScriptCall { script: Script::Update, args }
    }

    pub fn complete(&self, task_id: &str) -> (c: ScriptCall)
        ensures
            call_is(c, Script::Complete, seq![task_id@]),
    {
        call1(Script::Complete, task_id)
    }

    pub fn move_to(&self, task_id: &str, list_name: &str) -> (c: ScriptCall)
        ensures
            call_is(c, Script::Move, seq![task_id@, list_name@]),
    {
        let mut args: Vec<String> = Vec::new();
        args.push(String::from_str(task_id));
        args.push(String::from_str(list_name));
        proof {
            assert(str_views(args@) =~= seq![task_id@, list_name@]);
        }
        ScriptCall { script: Script::Move, args }
    }

    /// Schedules a to-do; the date and time travel as decimal numbers.
    pub fn schedule(&self, task_id: &str, when: ScheduleTarget) -> (c: ScriptCall)
        ensures
            call_is(c, Script::Schedule, schedule_args(task_id@, when)),
    {
        let mut args: Vec<String> = Vec::new();
        args.push(String::from_str(task_id));
        args.push(i32_text(when.year));
        args.push(u32_text(when.month));
        args.push(u32_text(when.day));
        args.push(u32_text(when.hour));
        args.push(u32_text(when.minute));
        args.push(u32_text(when.second));
        proof {
            assert(str_views(args@) =~= seq![
                task_id@,
                int_text(when.year as int),
                int_text(when.month as int),
                int_text(when.day as int),
                int_text(when.hour as int),
                int_text(when.minute as int),
                int_text(when.second as int),
            ]);
        }
        ScriptCall { script: Script::Schedule, args }
    }

    pub fn delete(&self, task_id: &str) -> (c: ScriptCall)
        ensures
            call_is(c, Script::Delete, seq![task_id@]),
    {
        call1(Script::Delete, task_id)
    }

    pub fn open(&self, task_id: &str) -> (c: ScriptCall)
        ensures
            call_is(c, Script::Open, seq![task_id@]),
    {
        call1(Script::Open, task_id)
    }
}

/// The details of a failed script run, from its trimmed standard error and output.
pub open spec fn failure_details(stderr: Seq<char>, stdout: Seq<char>) -> Seq<char> {
    let e = trimmed(stderr);
    let o = trimmed(stdout);
    if e.len() > 0 && o.len() > 0 {
        e + " | stdout: "@ + o
    } else if e.len() > 0 {
        e
    } else if o.len() > 0 {
        o
    } else {
        "unknown osascript failure"@
    }
}

/// The error for a script that exited unsuccessfully.
pub fn automation_failure(stderr: &str, stdout: &str) -> (r: ThingError)
    ensures
        r matches ThingError::Automation(m) && m@ == failure_details(stderr@, stdout@),
{
    let e = trim(stderr);
    let o = trim(stdout);
    let has_e = e.as_str().unicode_len() > 0;
    let has_o = o.as_str().unicode_len() > 0;
    let details = if has_e && has_o {
        e.concat(" | stdout: ").concat(o.as_str())
    } else if has_e {
        e
    } else if has_o {
        o
    } else {
        String::from_str("unknown osascript failure")
    };
    ThingError::Automation(details)
}

} // verus!
