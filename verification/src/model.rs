use vstd::prelude::*;

use crate::text::{ascii_fold, chars_of, contains_chars, has_substring, to_ascii_lowercase};

verus! {

/// A Things list (Inbox, Today, a project, ...).
#[derive(Debug)]
pub struct ThingList {
    pub id: String,
    pub name: String,
}

/// A Things to-do, as the automation layer reports it. Dates are ISO 8601 text.
#[derive(Debug)]
pub struct Thing {
    pub id: String,
    pub name: String,
    pub notes: Option<String>,
    pub status: String,
    pub tags: Vec<String>,
    pub container_name: Option<String>,
    pub container_kind: Option<String>,
    pub project: Option<String>,
    pub area: Option<String>,
    pub contact: Option<String>,
    pub due_date: Option<String>,
    pub activation_date: Option<String>,
    pub completion_date: Option<String>,
    pub cancellation_date: Option<String>,
    pub creation_date: Option<String>,
    pub modification_date: Option<String>,
}

/// The views of a sequence of strings.
pub open spec fn str_views(v: Seq<String>) -> Seq<Seq<char>> {
    v.map_values(|s: String| s@)
}

/// `field` contains the already case-folded `folded_query`, ignoring ASCII case.
pub open spec fn field_matches(field: Seq<char>, folded_query: Seq<char>) -> bool {
    has_substring(ascii_fold(field), folded_query)
}

pub open spec fn opt_field_matches(field: Option<String>, folded_query: Seq<char>) -> bool {
    match field {
        Some(f) => field_matches(f@, folded_query),
        None => false,
    }
}

/// A query matches a thing when, ignoring ASCII case, it occurs in the id, the
/// name, the notes, one of the tags, the container, the project, the area or
/// the contact.
pub open spec fn thing_matches(t: Thing, query: Seq<char>) -> bool {
    let q = ascii_fold(query);
    ||| field_matches(t.id@, q)
    ||| field_matches(t.name@, q)
    ||| opt_field_matches(t.notes, q)
    ||| (exists|i: int| 0 <= i < t.tags@.len() && field_matches(#[trigger] t.tags@[i]@, q))
    ||| opt_field_matches(t.container_name, q)
    ||| opt_field_matches(t.project, q)
    ||| opt_field_matches(t.area, q)
    ||| opt_field_matches(t.contact, q)
}

fn field_contains(field: &str, folded_query: &Vec<char>) -> (r: bool)
    ensures
        r == field_matches(field@, folded_query@),
{
    let folded = to_ascii_lowercase(field);
    let chars = chars_of(folded.as_str());
    contains_chars(&chars, folded_query)
}

fn opt_field_contains(field: &Option<String>, folded_query: &Vec<char>) -> (r: bool)
    ensures
        r == opt_field_matches(*field, folded_query@),
{
    match field {
        Some(f) => field_contains(f.as_str(), folded_query),
        None => false,
    }
}

impl Thing {
    /// Case-insensitive substring match across the key fields.
    pub fn matches_query(&self, query: &str) -> (r: bool)
        ensures
            r == thing_matches(*self, query@),
    {
        let folded = to_ascii_lowercase(query);
        let q = chars_of(folded.as_str());
        if field_contains(self.id.as_str(), &q) || field_contains(self.name.as_str(), &q)
            || opt_field_contains(&self.notes, &q) {
            return true;
        }
        let mut i: usize = 0;
        while i < self.tags.len()
            invariant
                q@ == ascii_fold(query@),
                i <= self.tags@.len(),
                forall|k: int| 0 <= k < i ==> !field_matches(#[trigger] self.tags@[k]@, q@),
            decreases self.tags@.len() - i,
        {
            if field_contains(self.tags[i].as_str(), &q) {
                return true;
            }
            i = i + 1;
        }
        opt_field_contains(&self.container_name, &q) || opt_field_contains(&self.project, &q)
            || opt_field_contains(&self.area, &q) || opt_field_contains(&self.contact, &q)
    }
}

} // verus!
