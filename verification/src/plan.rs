use vstd::prelude::*;

use crate::cli::UpdateArgs;
use crate::error::{ThingError, is_invalid_input};
use crate::model::str_views;
use crate::normalize::{
    empty_field_message, normalize_tags, normalize_text, normalized_tags, status_accepted,
    status_error_message, tag_from, validate_status,
};
use crate::text::{ascii_fold, str_eq, trimmed};
use crate::things::UpdateThingInput;

verus! {

/// Where text that was not given inline is read from.
#[derive(Debug)]
pub enum TextSource {
    /// Standard input (the value-file `-`).
    Stdin,
    /// A file, by its path.
    File(String),
}

/// How a text field with a value-file alternative is obtained.
#[derive(Debug)]
pub enum NotesPlan {
    /// Known without reading anything: the inline value, or nothing at all.
    Known(Option<String>),
    /// To be read from a source.
    Read(TextSource),
}

pub open spec fn both_given_message() -> Seq<char> {
    "value and value-file cannot be used together"@
}

/// How a field given inline (`value`) or by a file (`file`) is obtained.
pub open spec fn read_plan(value: Option<String>, file: Option<String>, r: Result<NotesPlan, ThingError>) -> bool {
    match (value, file) {
        (Some(v), None) => r matches Ok(NotesPlan::Known(Some(x))) && x@ == v@,
        (None, Some(p)) => if p@ == "-"@ {
            r matches Ok(NotesPlan::Read(TextSource::Stdin))
        } else {
            r matches Ok(NotesPlan::Read(TextSource::File(q))) && q@ == p@
        },
        (None, None) => r matches Ok(NotesPlan::Known(None)),
        (Some(_), Some(_)) => r matches Err(e) && is_invalid_input(e, both_given_message()),
    }
}

/// Decides how a text with an inline and a file form is obtained.
pub fn plan_read_text(value: Option<String>, value_file: Option<String>) -> (r: Result<
    NotesPlan,
    ThingError,
>)
    ensures
        read_plan(value, value_file, r),
{
    match (value, value_file) {
        (Some(v), None) => Ok(NotesPlan::Known(Some(v))),
        (None, Some(path)) => {
            if str_eq(path.as_str(), "-") {
                Ok(NotesPlan::Read(TextSource::Stdin))
            } else {
                Ok(NotesPlan::Read(TextSource::File(path)))
            }
        },
        (None, None) => Ok(NotesPlan::Known(None)),
        (Some(_), Some(_)) => Err(
            ThingError::InvalidInput(
                String::from_str("value and value-file cannot be used together"),
            ),
        ),
    }
}

/// The first part of creating a to-do: the normalized name and how the notes
/// are obtained.
pub open spec fn create_start(
    name: String,
    notes: Option<String>,
    notes_file: Option<String>,
    r: Result<(String, NotesPlan), ThingError>,
) -> bool {
    if trimmed(name@).len() == 0 {
        r matches Err(e) && is_invalid_input(e, empty_field_message("name"@))
    } else {
        match r {
            Ok((n, plan)) => n@ == trimmed(name@) && read_plan(notes, notes_file, Ok(plan)),
            Err(e) => read_plan(notes, notes_file, Err(e)),
        }
    }
}

pub fn plan_create(name: String, notes: Option<String>, notes_file: Option<String>) -> (r: Result<
    (String, NotesPlan),
    ThingError,
>)
    ensures
        create_start(name, notes, notes_file, r),
{
    let name = match normalize_text(name, "name") {
        Ok(n) => n,
        Err(e) => return Err(e),
    };
    match plan_read_text(notes, notes_file) {
        Ok(plan) => Ok((name, plan)),
        Err(e) => Err(e),
    }
}

/// What an update does to the notes.
#[derive(Debug)]
pub enum NotesChange {
    Keep,
    Replace(String),
    Read(TextSource),
}

/// An update, with everything decided but the notes that may still be read and
/// the status that is validated after them.
#[derive(Debug)]
pub struct UpdatePlan {
    pub name: Option<String>,
    pub notes: NotesChange,
    pub status: Option<String>,
    pub tags: Option<Vec<String>>,
}

/// The update changes something.
pub open spec fn update_changes(args: UpdateArgs) -> bool {
    ||| args.name is Some
    ||| args.notes is Some
    ||| args.notes_file is Some
    ||| args.clear_notes
    ||| args.status is Some
    ||| (exists|x: Seq<char>| tag_from(str_views(args.tags@), x))
    ||| args.clear_tags
}

pub open spec fn no_change_message() -> Seq<char> {
    "update requires at least one field change"@
}

pub open spec fn opt_trimmed_view(o: Option<String>) -> Option<Seq<char>> {
    match o {
        Some(s) => Some(trimmed(s@)),
        None => None,
    }
}

/// The notes change that an update asks for, once `clear_notes` and the
/// inline/file choice are taken into account.
pub open spec fn notes_change_ok(args: UpdateArgs, c: NotesChange) -> bool {
    if args.clear_notes {
        c matches NotesChange::Replace(s) && s@.len() == 0
    } else if args.notes is Some || args.notes_file is Some {
        match (args.notes, args.notes_file) {
            (Some(v), None) => c matches NotesChange::Replace(s) && s@ == v@,
            (None, Some(p)) => if p@ == "-"@ {
                c matches NotesChange::Read(TextSource::Stdin)
            } else {
                c matches NotesChange::Read(TextSource::File(q)) && q@ == p@
            },
            _ => false,
        }
    } else {
        c matches NotesChange::Keep
    }
}

/// The tags an update sets: none when they are cleared, the normalized tags
/// when some are given, and no change otherwise.
pub open spec fn tags_change_ok(args: UpdateArgs, tags: Option<Vec<String>>) -> bool {
    if args.clear_tags {
        tags matches Some(t) && t@.len() == 0
    } else if exists|x: Seq<char>| tag_from(str_views(args.tags@), x) {
        tags matches Some(t) && normalized_tags(str_views(t@), str_views(args.tags@))
    } else {
        tags is None
    }
}

/// The first part of an update: refuse an update without changes, normalize
/// the name, decide the notes; errors come in that order.
pub open spec fn update_start(args: UpdateArgs, r: Result<UpdatePlan, ThingError>) -> bool {
    if !update_changes(args) {
        r matches Err(e) && is_invalid_input(e, no_change_message())
    } else if args.name matches Some(n) && trimmed(n@).len() == 0 {
        r matches Err(e) && is_invalid_input(e, empty_field_message("name"@))
    } else if !args.clear_notes && args.notes is Some && args.notes_file is Some {
        r matches Err(e) && is_invalid_input(e, both_given_message())
    } else {
        r matches Ok(p) && {
            &&& opt_trimmed_view(args.name) == match p.name {
                Some(n) => Some(n@),
                None => None::<Seq<char>>,
            }
            &&& notes_change_ok(args, p.notes)
            &&& p.status == args.status
            &&& tags_change_ok(args, p.tags)
        }
    }
}

pub fn plan_update(args: UpdateArgs) -> (r: Result<UpdatePlan, ThingError>)
    ensures
        update_start(args, r),
{
    let ghost a = args;
    let notes_were_provided = args.notes.is_some() || args.notes_file.is_some();
    let tags = normalize_tags(args.tags);
    let has_tags = tags.len() > 0;
    proof {
        if has_tags {
            assert(str_views(tags@)[0] == tags@[0]@);
            assert(str_views(tags@).contains(tags@[0]@));
            assert(tag_from(str_views(a.tags@), tags@[0]@));
        } else {
            assert forall|x: Seq<char>| !tag_from(str_views(a.tags@), x) by {
                if tag_from(str_views(a.tags@), x) {
                    assert(str_views(tags@).contains(x));
                }
            }
        }
    }
    let changed = args.name.is_some() || notes_were_provided || args.clear_notes
        || args.status.is_some() || has_tags || args.clear_tags;
    if !changed {
        return Err(
            ThingError::InvalidInput(String::from_str("update requires at least one field change")),
        );
    }
    let name = match args.name {
        Some(n) => match normalize_text(n, "name") {
            Ok(v) => Some(v),
            Err(e) => return Err(e),
        },
        None => None,
    };
    let notes = if args.clear_notes {
        NotesChange::Replace(String::new())
    } else if notes_were_provided {
        match plan_read_text(args.notes, args.notes_file) {
            Ok(NotesPlan::Known(Some(v))) => NotesChange::Replace(v),
            Ok(NotesPlan::Known(None)) => NotesChange::Replace(String::new()),
            Ok(NotesPlan::Read(src)) => NotesChange::Read(src),
            Err(e) => return Err(e),
        }
    } else {
        NotesChange::Keep
    };
    let tags = if args.clear_tags {
        Some(Vec::new())
    } else if has_tags {
        Some(tags)
    } else {
        None
    };
    Ok(UpdatePlan { name, notes, status: args.status, tags })
}

/// The last part of an update: validate the status, and assemble the input.
pub open spec fn update_finish(
    name: Option<String>,
    notes: Option<String>,
    status: Option<String>,
    tags: Option<Vec<String>>,
    r: Result<UpdateThingInput, ThingError>,
) -> bool {
    match status {
        Some(s) if !status_accepted(s@) => r matches Err(e) && is_invalid_input(
            e,
            status_error_message(s@),
        ),
        _ => r matches Ok(input) && {
            &&& input.name == name
            &&& input.notes == notes
            &&& input.tags == tags
            &&& match (input.status, status) {
                (Some(x), Some(s)) => x@ == ascii_fold(trimmed(s@)),
                (None, None) => true,
                _ => false,
            }
        },
    }
}

pub fn build_update_input(
    name: Option<String>,
    notes: Option<String>,
    status: Option<String>,
    tags: Option<Vec<String>>,
) -> (r: Result<UpdateThingInput, ThingError>)
    ensures
        update_finish(name, notes, status, tags, r),
{
    let status = match status {
        Some(s) => match validate_status(s) {
            Ok(v) => Some(v),
            Err(e) => return Err(e),
        },
        None => None,
    };
    Ok(UpdateThingInput { name, notes, status, tags })
}

} // verus!
