use vstd::prelude::*;

use crate::error::ThingError;
use crate::model::{Thing, ThingList, str_views};
use crate::output::Output;
use crate::text::{join, joined};

verus! {

pub open spec fn list_row(l: ThingList) -> Seq<char> {
    l.id@ + "\t"@ + l.name@
}

pub open spec fn container_text(t: Thing) -> Seq<char> {
    match t.container_name {
        Some(c) => c@,
        None => "-"@,
    }
}

pub open spec fn thing_row(t: Thing) -> Seq<char> {
    t.id@ + "\t"@ + t.name@ + "\t"@ + t.status@ + "\t"@ + container_text(t) + "\t"@ + joined(
        str_views(t.tags@),
        ","@,
    )
}

/// The table of lists: a header line, then one tab-separated line per list.
pub open spec fn lists_table(lists: Seq<ThingList>) -> Seq<char> {
    if lists.len() == 0 {
        "no lists found"@
    } else {
        joined(seq!["ID\tNAME"@] + lists.map_values(|l: ThingList| list_row(l)), "\n"@)
    }
}

/// The table of to-dos: a header line, then one tab-separated line per to-do.
pub open spec fn things_table(things: Seq<Thing>) -> Seq<char> {
    if things.len() == 0 {
        "no Things tasks found"@
    } else {
        joined(seq!["ID\tNAME\tSTATUS\tLIST\tTAGS"@] + things.map_values(|t: Thing| thing_row(t)), "\n"@)
    }
}

pub fn render_lists(lists: &[ThingList]) -> (r: Result<String, ThingError>)
    ensures
        r matches Ok(s) && s@ == lists_table(lists@),
{
    if lists.len() == 0 {
        return Ok(String::from_str("no lists found"));
    }
    let mut lines: Vec<String> = Vec::new();
    lines.push(String::from_str("ID\tNAME"));
    let mut i: usize = 0;
    while i < lists.len()
        invariant
            i <= lists@.len(),
            lines@.map_values(|p: String| p@) == seq!["ID\tNAME"@] + lists@.take(i as int).map_values(
                |l: ThingList| list_row(l),
            ),
        decreases lists@.len() - i,
    {
        let row = lists[i].id.clone().concat("\t").concat(lists[i].name.as_str());
        let ghost old_lines = lines@;
        let ghost row_view = row@;
        lines.push(row);
        proof {
            assert(row_view == list_row(lists@[i as int]));
            assert(lines@.map_values(|p: String| p@) =~= old_lines.map_values(|p: String| p@).push(
                row_view,
            ));
            assert(lists@.take(i + 1).map_values(|l: ThingList| list_row(l)) =~= lists@.take(
                i as int,
            ).map_values(|l: ThingList| list_row(l)).push(list_row(lists@[i as int])));
            assert(lines@.map_values(|p: String| p@) =~= seq!["ID\tNAME"@] + lists@.take(
                i + 1,
            ).map_values(|l: ThingList| list_row(l)));
        }
        i = i + 1;
    }
    proof {
        assert(lists@.take(lists@.len() as int) =~= lists@);
    }
    Ok(join(&lines, "\n"))
}

fn thing_line(t: &Thing) -> (r: String)
    ensures
        r@ == thing_row(*t),
{
    let container = match &t.container_name {
        Some(c) => c.clone(),
        None => String::from_str("-"),
    };
    t.id.clone().concat("\t").concat(t.name.as_str()).concat("\t").concat(t.status.as_str()).concat(
        "\t",
    ).concat(container.as_str()).concat("\t").concat(join(&t.tags, ",").as_str())
}

pub fn render_list(things: &[Thing]) -> (r: Result<String, ThingError>)
    ensures
        r matches Ok(s) && s@ == things_table(things@),
{
    if things.len() == 0 {
        return Ok(String::from_str("no Things tasks found"));
    }
    let mut lines: Vec<String> = Vec::new();
    lines.push(String::from_str("ID\tNAME\tSTATUS\tLIST\tTAGS"));
    let mut i: usize = 0;
    while i < things.len()
        invariant
            i <= things@.len(),
            lines@.map_values(|p: String| p@) == seq!["ID\tNAME\tSTATUS\tLIST\tTAGS"@] + things@.take(
                i as int,
            ).map_values(|t: Thing| thing_row(t)),
        decreases things@.len() - i,
    {
        let row = thing_line(&things[i]);
        let ghost old_lines = lines@;
        let ghost row_view = row@;
        lines.push(row);
        proof {
            assert(lines@.map_values(|p: String| p@) =~= old_lines.map_values(|p: String| p@).push(
                row_view,
            ));
            assert(things@.take(i + 1).map_values(|t: Thing| thing_row(t)) =~= things@.take(
                i as int,
            ).map_values(|t: Thing| thing_row(t)).push(thing_row(things@[i as int])));
            assert(lines@.map_values(|p: String| p@) =~= seq!["ID\tNAME\tSTATUS\tLIST\tTAGS"@]
                + things@.take(i + 1).map_values(|t: Thing| thing_row(t)));
        }
        i = i + 1;
    }
    proof {
        assert(things@.take(things@.len() as int) =~= things@);
    }
    Ok(join(&lines, "\n"))
}

/// `deleted NAME (ID)`.
pub fn render_deleted(thing: &Thing) -> (r: String)
    ensures
        r@ == "deleted "@ + thing.name@ + " ("@ + thing.id@ + ")"@,
{
    String::from_str("deleted ").concat(thing.name.as_str()).concat(" (").concat(
        thing.id.as_str(),
    ).concat(")")
}

/// `opened NAME (ID)`.
pub fn render_opened(thing: &Thing) -> (r: String)
    ensures
        r@ == "opened "@ + thing.name@ + " ("@ + thing.id@ + ")"@,
{
    String::from_str("opened ").concat(thing.name.as_str()).concat(" (").concat(
        thing.id.as_str(),
    ).concat(")")
}

/// The plain-text rendering of an output, where it has one; a single to-do is
/// shown as JSON even without `--json`, which this does not produce.
pub open spec fn plain_text(output: Output) -> Option<Seq<char>> {
    match output {
        Output::Lists { lists } => Some(lists_table(lists@)),
        Output::Thing { .. } => None,
        Output::Things { things } => Some(things_table(things@)),
        Output::Deleted { thing, .. } => Some("deleted "@ + thing.name@ + " ("@ + thing.id@ + ")"@),
        Output::Opened { thing, .. } => Some("opened "@ + thing.name@ + " ("@ + thing.id@ + ")"@),
    }
}

pub fn render_plain(output: &Output) -> (r: Option<String>)
    ensures
        match r {
            Some(s) => plain_text(*output) == Some(s@),
            None => plain_text(*output) is None,
        },
{
    match output {
        Output::Lists { lists } => match render_lists(lists.as_slice()) {
            Ok(s) => Some(s),
            Err(_) => None,
        },
        Output::Thing { .. } => None,
        Output::Things { things } => match render_list(things.as_slice()) {
            Ok(s) => Some(s),
            Err(_) => None,
        },
        Output::Deleted { thing, .. } => Some(render_deleted(thing)),
        Output::Opened { thing, .. } => Some(render_opened(thing)),
    }
}

} // verus!
