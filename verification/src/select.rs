use vstd::prelude::*;

use crate::error::{ThingError, is_conflict, is_invalid_input, is_not_found};
use crate::listing::lemma_filter_subset;
use crate::model::{Thing, ThingList};
use crate::text::{eq_ignore_ascii_case, eq_ignore_case, str_eq, trim, trimmed};

verus! {

/// One more element of `s` seen by `filter`.
pub proof fn lemma_filter_take_step<A>(s: Seq<A>, i: int, p: spec_fn(A) -> bool)
    requires
        0 <= i < s.len(),
    ensures
        s.take(i + 1).filter(p) == if p(s[i]) {
            s.take(i).filter(p).push(s[i])
        } else {
            s.take(i).filter(p)
        },
{
    reveal(Seq::filter);
    assert(s.take(i + 1).drop_last() =~= s.take(i));
    assert(s.take(i + 1).last() == s[i]);
}

pub proof fn lemma_filter_take_all<A>(s: Seq<A>, p: spec_fn(A) -> bool)
    ensures
        s.take(s.len() as int).filter(p) == s.filter(p),
{
    assert(s.take(s.len() as int) =~= s);
}

/// The first element that `filter` keeps is the first element that passes.
pub proof fn lemma_filter_first<A>(s: Seq<A>, i: int, p: spec_fn(A) -> bool)
    requires
        0 <= i < s.len(),
        s.take(i).filter(p).len() == 0,
        p(s[i]),
    ensures
        s.filter(p).len() > 0,
        s.filter(p)[0] == s[i],
{
    lemma_filter_take_step(s, i, p);
    assert(s =~= s.take(i + 1) + s.skip(i + 1));
    Seq::filter_distributes_over_add(s.take(i + 1), s.skip(i + 1), p);
}

pub open spec fn id_is(sel: Seq<char>) -> spec_fn(Thing) -> bool {
    |t: Thing| t.id@ == sel
}

pub open spec fn name_is(sel: Seq<char>) -> spec_fn(Thing) -> bool {
    |t: Thing| t.name@ == sel
}

pub open spec fn name_is_folded(sel: Seq<char>) -> spec_fn(Thing) -> bool {
    |t: Thing| eq_ignore_case(t.name@, sel)
}

pub open spec fn list_name_is(name: Seq<char>) -> spec_fn(ThingList) -> bool {
    |l: ThingList| l.name@ == name
}

pub open spec fn list_name_is_folded(name: Seq<char>) -> spec_fn(ThingList) -> bool {
    |l: ThingList| eq_ignore_case(l.name@, name)
}

pub open spec fn empty_selector_message() -> Seq<char> {
    "selector must not be empty"@
}

pub open spec fn shared_name_message(sel: Seq<char>) -> Seq<char> {
    "multiple Things tasks share the name: "@ + sel
}

pub open spec fn task_not_found_message(sel: Seq<char>) -> Seq<char> {
    "Things task not found: "@ + sel
}

pub open spec fn folded_conflict_message(sel: Seq<char>) -> Seq<char> {
    "multiple Things tasks match selector case-insensitively: "@ + sel
}

/// What selecting a to-do out of `things` by `sel` gives: the first to-do with
/// that id; else the one to-do with exactly that name; else the one whose name
/// equals it ignoring ASCII case; an error where there is none or more than one.
pub open spec fn selection(things: Seq<Thing>, sel: Seq<char>, r: Result<Thing, ThingError>) -> bool {
    let by_id = things.filter(id_is(sel));
    let exact = things.filter(name_is(sel));
    let folded = things.filter(name_is_folded(sel));
    if trimmed(sel).len() == 0 {
        r matches Err(e) && is_invalid_input(e, empty_selector_message())
    } else if by_id.len() > 0 {
        r == Ok::<Thing, ThingError>(by_id[0])
    } else if exact.len() == 1 {
        r == Ok::<Thing, ThingError>(exact[0])
    } else if exact.len() > 1 {
        r matches Err(e) && is_conflict(e, shared_name_message(sel))
    } else if folded.len() == 1 {
        r == Ok::<Thing, ThingError>(folded[0])
    } else if folded.len() == 0 {
        r matches Err(e) && is_not_found(e, task_not_found_message(sel))
    } else {
        r matches Err(e) && is_conflict(e, folded_conflict_message(sel))
    }
}

pub open spec fn deref_result<'a>(r: Result<&'a Thing, ThingError>) -> Result<Thing, ThingError> {
    match r {
        Ok(t) => Ok(*t),
        Err(e) => Err(e),
    }
}

/// Counts (up to two) the to-dos satisfying a name test, and finds the first.
fn first_name_match(things: &[Thing], sel: &str, ignore_case: bool) -> (r: (usize, usize))
    ensures
        ({
            let f = if ignore_case {
                things@.filter(name_is_folded(sel@))
            } else {
                things@.filter(name_is(sel@))
            };
            &&& r.0 == if f.len() >= 2 {
                2
            } else {
                f.len()
            }
            &&& r.0 > 0 ==> r.1 < things@.len() && things@[r.1 as int] == f[0]
        }),
{
    let ghost p = if ignore_case {
        name_is_folded(sel@)
    } else {
        name_is(sel@)
    };
    let mut count: usize = 0;
    let mut first: usize = 0;
    let mut i: usize = 0;
    while i < things.len()
        invariant
            i <= things@.len(),
            p == (if ignore_case {
                name_is_folded(sel@)
            } else {
                name_is(sel@)
            }),
            count == if things@.take(i as int).filter(p).len() >= 2 {
                2
            } else {
                things@.take(i as int).filter(p).len()
            },
            count > 0 ==> first < i && things@[first as int] == things@.take(i as int).filter(p)[0],
        decreases things@.len() - i,
    {
        let hit = if ignore_case {
            eq_ignore_ascii_case(things[i].name.as_str(), sel)
        } else {
            str_eq(things[i].name.as_str(), sel)
        };
        proof {
            lemma_filter_take_step(things@, i as int, p);
            assert(hit == p(things@[i as int]));
        }
        if hit {
            if count == 0 {
                first = i;
            }
            if count < 2 {
                count = count + 1;
            }
        }
        i = i + 1;
    }
    proof {
        lemma_filter_take_all(things@, p);
    }
    (count, first)
}

/// Selects a to-do by id, else by exact name, else by name ignoring ASCII case.
pub fn resolve_selector<'a>(things: &'a [Thing], selector: &str) -> (r: Result<
    &'a Thing,
    ThingError,
>)
    ensures
        selection(things@, selector@, deref_result(r)),
{
    let trimmed_selector = trim(selector);
    if trimmed_selector.as_str().unicode_len() == 0 {
        return Err(ThingError::InvalidInput(String::from_str("selector must not be empty")));
    }
    let ghost by_id = id_is(selector@);
    let mut i: usize = 0;
    while i < things.len()
        invariant
            i <= things@.len(),
            by_id == id_is(selector@),
            trimmed(selector@).len() > 0,
            things@.take(i as int).filter(by_id).len() == 0,
        decreases things@.len() - i,
    {
        let hit = str_eq(things[i].id.as_str(), selector);
        proof {
            lemma_filter_take_step(things@, i as int, by_id);
        }
        if hit {
            proof {
                lemma_filter_first(things@, i as int, by_id);
            }
            return Ok(&things[i]);
        }
        i = i + 1;
    }
    proof {
        lemma_filter_take_all(things@, by_id);
    }
    let (exact_count, exact_first) = first_name_match(things, selector, false);
    if exact_count == 1 {
        return Ok(&things[exact_first]);
    }
    if exact_count > 1 {
        return Err(
            ThingError::Conflict(
                String::from_str("multiple Things tasks share the name: ").concat(selector),
            ),
        );
    }
    let (folded_count, folded_first) = first_name_match(things, selector, true);
    if folded_count == 1 {
        Ok(&things[folded_first])
    } else if folded_count == 0 {
        Err(ThingError::NotFound(String::from_str("Things task not found: ").concat(selector)))
    } else {
        Err(
            ThingError::Conflict(
                String::from_str("multiple Things tasks match selector case-insensitively: ").concat(
                    selector,
                ),
            ),
        )
    }
}

pub open spec fn list_not_found_message(name: Seq<char>) -> Seq<char> {
    "Things list not found: "@ + name
}

pub open spec fn list_conflict_message(name: Seq<char>) -> Seq<char> {
    "multiple Things lists matched: "@ + name
}

/// Which list a (trimmed, non-empty) requested name designates among `lists`: the
/// first list of exactly that name; else the one list whose name equals it
/// ignoring ASCII case; an error where there is none or more than one.
pub open spec fn list_selection(lists: Seq<ThingList>, requested: Seq<char>, r: Result<String, ThingError>) -> bool {
    let exact = lists.filter(list_name_is(requested));
    let folded = lists.filter(list_name_is_folded(requested));
    if exact.len() > 0 {
        r matches Ok(n) && n@ == requested
    } else if folded.len() == 1 {
        r matches Ok(n) && n@ == folded[0].name@
    } else if folded.len() == 0 {
        r matches Err(e) && is_not_found(e, list_not_found_message(requested))
    } else {
        r matches Err(e) && is_conflict(e, list_conflict_message(requested))
    }
}

/// The list name to use for a requested (already normalized) name.
pub fn select_list_name(lists: &Vec<ThingList>, requested: &str) -> (r: Result<String, ThingError>)
    ensures
        list_selection(lists@, requested@, r),
{
    let ghost exact = list_name_is(requested@);
    let ghost folded = list_name_is_folded(requested@);
    let mut i: usize = 0;
    while i < lists.len()
        invariant
            i <= lists@.len(),
            exact == list_name_is(requested@),
            lists@.take(i as int).filter(exact).len() == 0,
        decreases lists@.len() - i,
    {
        let hit = str_eq(lists[i].name.as_str(), requested);
        proof {
            lemma_filter_take_step(lists@, i as int, exact);
        }
        if hit {
            proof {
                lemma_filter_first(lists@, i as int, exact);
            }
            return Ok(lists[i].name.clone());
        }
        i = i + 1;
    }
    proof {
        lemma_filter_take_all(lists@, exact);
    }
    let mut count: usize = 0;
    let mut first: usize = 0;
    let mut j: usize = 0;
    while j < lists.len()
        invariant
            j <= lists@.len(),
            folded == list_name_is_folded(requested@),
            count == if lists@.take(j as int).filter(folded).len() >= 2 {
                2
            } else {
                lists@.take(j as int).filter(folded).len()
            },
            count > 0 ==> first < j && lists@[first as int] == lists@.take(j as int).filter(folded)[0],
        decreases lists@.len() - j,
    {
        let hit = eq_ignore_ascii_case(lists[j].name.as_str(), requested);
        proof {
            lemma_filter_take_step(lists@, j as int, folded);
        }
        if hit {
            if count == 0 {
                first = j;
            }
            if count < 2 {
                count = count + 1;
            }
        }
        j = j + 1;
    }
    proof {
        lemma_filter_take_all(lists@, folded);
    }
    if count == 1 {
        Ok(lists[first].name.clone())
    } else if count == 0 {
        Err(ThingError::NotFound(String::from_str("Things list not found: ").concat(requested)))
    } else {
        Err(ThingError::Conflict(String::from_str("multiple Things lists matched: ").concat(requested)))
    }
}

/// The to-do a selector selects is one of the to-dos, and the selector is its
/// id, its name, or its name up to ASCII case.
pub proof fn lemma_selection_matches(things: Seq<Thing>, sel: Seq<char>, t: Thing)
    requires
        selection(things, sel, Ok(t)),
    ensures
        things.contains(t),
        t.id@ == sel || t.name@ == sel || eq_ignore_case(t.name@, sel),
{
    let by_id = things.filter(id_is(sel));
    let exact = things.filter(name_is(sel));
    let folded = things.filter(name_is_folded(sel));
    if by_id.len() > 0 {
        lemma_filter_subset(things, id_is(sel), 0);
    } else if exact.len() == 1 {
        lemma_filter_subset(things, name_is(sel), 0);
    } else {
        lemma_filter_subset(things, name_is_folded(sel), 0);
    }
}

} // verus!
