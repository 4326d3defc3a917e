use vstd::prelude::*;

use crate::error::{ThingError, is_invalid_input};
use crate::model::{Thing, str_views, thing_matches};
use crate::normalize::{
    lemma_trim_idempotent,
    normalize_tags, normalized_tags, status_accepted, status_error_message, tag_from, validate_status,
};
use crate::order::{
    Cmp, compare_chars, lemma_str_lt_asymmetric, lemma_str_lt_irreflexive, lemma_str_lt_total,
    lemma_str_lt_transitive, str_lt,
};
use crate::select::{lemma_filter_first, lemma_filter_take_all, lemma_filter_take_step};
use crate::text::{ascii_fold, chars_of, str_eq, trimmed};

verus! {

pub open spec fn opt_view(o: Option<String>) -> Option<Seq<char>> {
    match o {
        Some(s) => Some(s@),
        None => None,
    }
}

/// `Option<String>`'s order: nothing comes before every string.
pub open spec fn opt_str_lt(a: Option<Seq<char>>, b: Option<Seq<char>>) -> bool {
    match (a, b) {
        (None, Some(_)) => true,
        (Some(x), Some(y)) => str_lt(x, y),
        _ => false,
    }
}

/// What a listing is ordered by: the modification date and the name.
pub type ListingKey = (Option<Seq<char>>, Seq<char>);

pub open spec fn listing_key(t: Thing) -> ListingKey {
    (opt_view(t.modification_date), t.name@)
}

/// `a` is listed before `b`: most recently modified first, then by name.
pub open spec fn key_before(a: ListingKey, b: ListingKey) -> bool {
    opt_str_lt(b.0, a.0) || (a.0 == b.0 && str_lt(a.1, b.1))
}

pub open spec fn listed_before(a: Thing, b: Thing) -> bool {
    key_before(listing_key(a), listing_key(b))
}

pub open spec fn has_key(k: ListingKey) -> spec_fn(Thing) -> bool {
    |t: Thing| listing_key(t) == k
}

/// `s` is in listing order.
pub open spec fn in_listing_order(s: Seq<Thing>) -> bool {
    forall|i: int, j: int| 0 <= i < j < s.len() ==> !listed_before(#[trigger] s[j], #[trigger] s[i])
}

/// `s` is `input` sorted stably into listing order: sorted, and the to-dos that
/// share a key keep their relative order (which also makes `s` a permutation of
/// `input`).
pub open spec fn sorted_for_listing(s: Seq<Thing>, input: Seq<Thing>) -> bool {
    &&& in_listing_order(s)
    &&& forall|k: ListingKey| #[trigger] s.filter(has_key(k)) == input.filter(has_key(k))
}

proof fn lemma_opt_lt_facts(a: Option<Seq<char>>, b: Option<Seq<char>>, c: Option<Seq<char>>)
    ensures
        !opt_str_lt(a, a),
        !(opt_str_lt(a, b) && opt_str_lt(b, a)),
        opt_str_lt(a, b) && opt_str_lt(b, c) ==> opt_str_lt(a, c),
        a != b ==> opt_str_lt(a, b) || opt_str_lt(b, a),
{
    match (a, b, c) {
        (Some(x), Some(y), Some(z)) => {
            lemma_str_lt_irreflexive(x);
            lemma_str_lt_asymmetric(x, y);
            if str_lt(x, y) && str_lt(y, z) {
                lemma_str_lt_transitive(x, y, z);
            }
            if x != y {
                lemma_str_lt_total(x, y);
            }
        },
        (Some(x), Some(y), None) => {
            lemma_str_lt_irreflexive(x);
            lemma_str_lt_asymmetric(x, y);
            if x != y {
                lemma_str_lt_total(x, y);
            }
        },
        (Some(x), _, _) => {
            lemma_str_lt_irreflexive(x);
        },
        _ => {},
    }
}

/// The listing order is a strict weak order whose ties are exactly equal keys.
pub proof fn lemma_key_order(a: ListingKey, b: ListingKey, c: ListingKey)
    ensures
        !key_before(a, a),
        key_before(a, b) ==> !key_before(b, a),
        key_before(a, b) && key_before(b, c) ==> key_before(a, c),
        !key_before(a, b) && !key_before(b, a) ==> a == b,
        key_before(a, b) && !key_before(c, b) ==> key_before(a, c),
        !key_before(b, a) && key_before(b, c) ==> key_before(a, c),
{
    lemma_opt_lt_facts(a.0, b.0, c.0);
    lemma_opt_lt_facts(c.0, b.0, a.0);
    lemma_opt_lt_facts(b.0, c.0, a.0);
    lemma_opt_lt_facts(c.0, a.0, b.0);
    lemma_opt_lt_facts(b.0, a.0, c.0);
    lemma_opt_lt_facts(a.0, c.0, b.0);
    lemma_str_lt_irreflexive(a.1);
    lemma_str_lt_asymmetric(a.1, b.1);
    lemma_str_lt_asymmetric(b.1, c.1);
    lemma_str_lt_asymmetric(a.1, c.1);
    if str_lt(a.1, b.1) && str_lt(b.1, c.1) {
        lemma_str_lt_transitive(a.1, b.1, c.1);
    }
    if a.1 != b.1 {
        lemma_str_lt_total(a.1, b.1);
    }
    if b.1 != c.1 {
        lemma_str_lt_total(b.1, c.1);
    }
    if a.1 != c.1 {
        lemma_str_lt_total(a.1, c.1);
    }
    if !key_before(a, b) && !key_before(b, a) {
        assert(a.0 == b.0);
        assert(a.1 == b.1);
    }
}

fn compare_opt(a: &Option<String>, b: &Option<String>) -> (r: Cmp)
    ensures
        (r == Cmp::Less) == opt_str_lt(opt_view(*a), opt_view(*b)),
        (r == Cmp::Equal) == (opt_view(*a) == opt_view(*b)),
        (r == Cmp::Greater) == opt_str_lt(opt_view(*b), opt_view(*a)),
{
    match (a, b) {
        (None, None) => Cmp::Equal,
        (None, Some(_)) => Cmp::Less,
        (Some(_), None) => Cmp::Greater,
        (Some(x), Some(y)) => compare_chars(&chars_of(x.as_str()), &chars_of(y.as_str())),
    }
}

/// Whether `a` is listed strictly before `b`.
fn listed_before_exec(a: &Thing, b: &Thing) -> (r: bool)
    ensures
        r == listed_before(*a, *b),
{
    match compare_opt(&b.modification_date, &a.modification_date) {
        Cmp::Less => true,
        Cmp::Greater => false,
        Cmp::Equal => compare_chars(&chars_of(a.name.as_str()), &chars_of(b.name.as_str()))
            == Cmp::Less,
    }
}

proof fn lemma_filter_add<A>(a: Seq<A>, b: Seq<A>, p: spec_fn(A) -> bool)
    ensures
        (a + b).filter(p) == a.filter(p) + b.filter(p),
{
    Seq::filter_distributes_over_add(a, b, p);
}

proof fn lemma_filter_none<A>(s: Seq<A>, p: spec_fn(A) -> bool)
    requires
        forall|i: int| 0 <= i < s.len() ==> !p(#[trigger] s[i]),
    ensures
        s.filter(p) == Seq::<A>::empty(),
    decreases s.len(),
{
    reveal(Seq::filter);
    if s.len() > 0 {
        assert(!p(s.last()));
        lemma_filter_none(s.drop_last(), p);
    }
}

/// Inserts `x` after every to-do that is not listed after it.
fn insert_for_listing(out: &mut Vec<Thing>, x: Thing)
    requires
        in_listing_order(old(out)@),
    ensures
        in_listing_order(final(out)@),
        forall|k: ListingKey| #[trigger] final(out)@.filter(has_key(k)) == if listing_key(x) == k {
            old(out)@.filter(has_key(k)).push(x)
        } else {
            old(out)@.filter(has_key(k))
        },
{
    let mut p: usize = 0;
    while p < out.len() && !listed_before_exec(&x, &out[p])
        invariant
            out@ == old(out)@,
            p <= out@.len(),
            forall|q: int| 0 <= q < p ==> !listed_before(x, #[trigger] out@[q]),
        decreases out@.len() - p,
    {
        p = p + 1;
    }
    let ghost v = out@;
    proof {
        assert forall|q: int| p <= q < v.len() implies listed_before(x, #[trigger] v[q]) by {
            if q > p {
                assert(!listed_before(v[q], v[p as int]));
                lemma_key_order(listing_key(x), listing_key(v[p as int]), listing_key(v[q]));
            }
        }
    }
    out.insert(p, x);
    proof {
        let w = out@;
        let pi = p as int;
        assert(w =~= v.take(pi) + seq![x] + v.skip(pi));
        assert forall|i: int, j: int| 0 <= i < j < w.len() implies !listed_before(
            #[trigger] w[j],
            #[trigger] w[i],
        ) by {
            if j < pi {
                assert(w[i] == v[i] && w[j] == v[j]);
            } else if j == pi {
                assert(w[i] == v[i]);
                assert(!listed_before(x, v[i]));
            } else if i < pi {
                assert(w[i] == v[i] && w[j] == v[j - 1]);
                assert(!listed_before(x, v[i]));
                assert(listed_before(x, v[j - 1]));
                lemma_key_order(listing_key(v[j - 1]), listing_key(x), listing_key(v[i]));
                lemma_key_order(listing_key(x), listing_key(v[j - 1]), listing_key(v[i]));
            } else if i == pi {
                assert(w[j] == v[j - 1]);
                assert(listed_before(x, v[j - 1]));
                lemma_key_order(listing_key(x), listing_key(v[j - 1]), listing_key(x));
            } else {
                assert(w[i] == v[i - 1] && w[j] == v[j - 1]);
            }
        }
        assert forall|k: ListingKey| #[trigger] w.filter(has_key(k)) == if listing_key(x) == k {
            v.filter(has_key(k)).push(x)
        } else {
            v.filter(has_key(k))
        } by {
            let f = has_key(k);
            lemma_filter_add(v.take(pi) + seq![x], v.skip(pi), f);
            lemma_filter_add(v.take(pi), seq![x], f);
            assert(v =~= v.take(pi) + v.skip(pi));
            lemma_filter_add(v.take(pi), v.skip(pi), f);
            reveal(Seq::filter);
            assert(seq![x].drop_last() =~= Seq::<Thing>::empty());
            if listing_key(x) == k {
                assert forall|i: int| 0 <= i < v.skip(pi).len() implies !f(#[trigger] v.skip(pi)[i]) by {
                    assert(v.skip(pi)[i] == v[pi + i]);
                    assert(listed_before(x, v[pi + i]));
                    lemma_key_order(listing_key(x), listing_key(x), listing_key(x));
                }
                lemma_filter_none(v.skip(pi), f);
                assert(seq![x].filter(f) =~= seq![x]);
                assert(w.filter(f) =~= v.filter(f).push(x));
            } else {
                assert(!f(x));
                assert(seq![x].last() == x);
                assert(Seq::<Thing>::empty().filter(f) =~= Seq::<Thing>::empty());
                assert(seq![x].filter(f) =~= Seq::<Thing>::empty());
                assert(w.filter(f) =~= v.filter(f));
            }
        }
    }
}

/// Sorts to-dos most recently modified first, then by name; ties keep their order.
pub fn sort_for_listing(things: Vec<Thing>) -> (r: Vec<Thing>)
    ensures
        sorted_for_listing(r@, things@),
{
    let ghost input = things@;
    let mut rest = things;
    let mut reversed: Vec<Thing> = Vec::new();
    while rest.len() > 0
        invariant
            reversed@ + rest@.reverse() == input.reverse(),
        decreases rest@.len(),
    {
        let ghost before = rest@;
        let t = rest.pop().unwrap();
        proof {
            assert(before =~= rest@.push(t));
            assert(before.reverse() =~= seq![t] + rest@.reverse());
            assert(reversed@.push(t) + rest@.reverse() =~= reversed@ + before.reverse());
        }
        reversed.push(t);
    }
    proof {
        assert(rest@.reverse() =~= Seq::<Thing>::empty());
        assert(reversed@ =~= input.reverse());
    }
    let mut out: Vec<Thing> = Vec::new();
    let n = reversed.len();
    let ghost count: int = 0;
    while reversed.len() > 0
        invariant
            n == input.len(),
            reversed@.len() <= n,
            reversed@ == input.skip(n - reversed@.len()).reverse(),
            in_listing_order(out@),
            forall|k: ListingKey| #[trigger] out@.filter(has_key(k)) == input.take(
                n - reversed@.len(),
            ).filter(has_key(k)),
        decreases reversed@.len(),
    {
        let ghost i = n - reversed@.len();
        let ghost before = reversed@;
        let x = reversed.pop().unwrap();
        proof {
            assert(input.skip(i).reverse().last() == input[i]);
            assert(x == input[i]);
            assert(reversed@ =~= input.skip(i + 1).reverse());
        }
        let ghost old_out = out@;
        insert_for_listing(&mut out, x);
        proof {
            assert forall|k: ListingKey| #[trigger] out@.filter(has_key(k)) == input.take(
                i + 1,
            ).filter(has_key(k)) by {
                lemma_filter_take_step(input, i, has_key(k));
            }
        }
    }
    proof {
        assert forall|k: ListingKey| #[trigger] out@.filter(has_key(k)) == input.filter(has_key(k)) by {
            lemma_filter_take_all(input, has_key(k));
        }
    }
    out
}


/// Something that `filter` keeps passes the test and comes from the sequence.
proof fn lemma_filter_nonempty<A>(s: Seq<A>, p: spec_fn(A) -> bool)
    requires
        s.filter(p).len() > 0,
    ensures
        exists|j: int| 0 <= j < s.len() && p(#[trigger] s[j]),
{
    if forall|j: int| 0 <= j < s.len() ==> !p(#[trigger] s[j]) {
        lemma_filter_none(s, p);
    }
}

proof fn lemma_filter_head<A>(x: A, t: Seq<A>, p: spec_fn(A) -> bool)
    ensures
        (seq![x] + t).filter(p) == seq![x].filter(p) + t.filter(p),
        seq![x].filter(p) == if p(x) {
            seq![x]
        } else {
            Seq::<A>::empty()
        },
{
    lemma_filter_add(seq![x], t, p);
    reveal(Seq::filter);
    assert(seq![x].drop_last() =~= Seq::<A>::empty());
    assert(Seq::<A>::empty().filter(p) =~= Seq::<A>::empty());
    if p(x) {
        assert(seq![x].filter(p) =~= seq![x]);
    } else {
        assert(seq![x].filter(p) =~= Seq::<A>::empty());
    }
}

/// Two sequences in listing order in which the to-dos of each key come in the
/// same order are equal.
proof fn lemma_listing_order_unique(s1: Seq<Thing>, s2: Seq<Thing>)
    requires
        in_listing_order(s1),
        in_listing_order(s2),
        forall|k: ListingKey| #[trigger] s1.filter(has_key(k)) == s2.filter(has_key(k)),
    ensures
        s1 == s2,
    decreases s1.len(),
{
    if s1.len() == 0 {
        if s2.len() > 0 {
            let k = listing_key(s2[0]);
            assert(s2.take(0).filter(has_key(k)) =~= Seq::<Thing>::empty()) by {
                reveal(Seq::filter);
            }
            lemma_filter_first(s2, 0, has_key(k));
            assert(s1.filter(has_key(k)).len() == 0) by {
                reveal(Seq::filter);
            }
        }
        assert(s1 =~= s2);
    } else {
        let k1 = listing_key(s1[0]);
        assert(s1.take(0).filter(has_key(k1)) =~= Seq::<Thing>::empty()) by {
            reveal(Seq::filter);
        }
        lemma_filter_first(s1, 0, has_key(k1));
        assert(s2.filter(has_key(k1)).len() > 0);
        lemma_filter_nonempty(s2, has_key(k1));
        let j = choose|j: int| 0 <= j < s2.len() && has_key(k1)(#[trigger] s2[j]);
        let k2 = listing_key(s2[0]);
        assert(s2.take(0).filter(has_key(k2)) =~= Seq::<Thing>::empty()) by {
            reveal(Seq::filter);
        }
        lemma_filter_first(s2, 0, has_key(k2));
        assert(s1.filter(has_key(k2)).len() > 0);
        lemma_filter_nonempty(s1, has_key(k2));
        let i = choose|i: int| 0 <= i < s1.len() && has_key(k2)(#[trigger] s1[i]);
        if j > 0 {
            assert(!listed_before(s2[j], s2[0]));
        }
        if i > 0 {
            assert(!listed_before(s1[i], s1[0]));
        }
        lemma_key_order(k1, k2, k1);
        assert(k1 == k2);
        assert(s1[0] == s2[0]);
        let t1 = s1.drop_first();
        let t2 = s2.drop_first();
        assert(s1 =~= seq![s1[0]] + t1);
        assert(s2 =~= seq![s2[0]] + t2);
        assert forall|k: ListingKey| #[trigger] t1.filter(has_key(k)) == t2.filter(has_key(k)) by {
            lemma_filter_head(s1[0], t1, has_key(k));
            lemma_filter_head(s2[0], t2, has_key(k));
            let h = seq![s1[0]].filter(has_key(k));
            assert(h + t1.filter(has_key(k)) == h + t2.filter(has_key(k)));
            assert(t1.filter(has_key(k)) =~= (h + t1.filter(has_key(k))).skip(h.len() as int));
            assert(t2.filter(has_key(k)) =~= (h + t2.filter(has_key(k))).skip(h.len() as int));
        }
        assert(in_listing_order(t1)) by {
            assert forall|a: int, b: int| 0 <= a < b < t1.len() implies !listed_before(
                #[trigger] t1[b],
                #[trigger] t1[a],
            ) by {
                assert(t1[a] == s1[a + 1] && t1[b] == s1[b + 1]);
            }
        }
        assert(in_listing_order(t2)) by {
            assert forall|a: int, b: int| 0 <= a < b < t2.len() implies !listed_before(
                #[trigger] t2[b],
                #[trigger] t2[a],
            ) by {
                assert(t2[a] == s2[a + 1] && t2[b] == s2[b + 1]);
            }
        }
        lemma_listing_order_unique(t1, t2);
    }
}

/// The listing order of a set of to-dos is determined: any two stable sorts of
/// the same to-dos are equal.
pub proof fn lemma_sorted_for_listing_unique(s1: Seq<Thing>, s2: Seq<Thing>, input: Seq<Thing>)
    requires
        sorted_for_listing(s1, input),
        sorted_for_listing(s2, input),
    ensures
        s1 == s2,
{
    lemma_listing_order_unique(s1, s2);
}

/// Sorting a listing that is already sorted changes nothing.
pub proof fn lemma_sort_for_listing_idempotent(input: Seq<Thing>, once: Seq<Thing>, twice: Seq<Thing>)
    requires
        sorted_for_listing(once, input),
        sorted_for_listing(twice, once),
    ensures
        twice == once,
{
    lemma_listing_order_unique(twice, once);
}

/// A to-do stays in a listing when it has the requested status, carries every
/// requested tag and matches the query.
pub open spec fn listing_keeps(
    status: Option<Seq<char>>,
    raw_tags: Seq<Seq<char>>,
    query: Option<Seq<char>>,
) -> spec_fn(Thing) -> bool {
    |t: Thing|
        {
            &&& match status {
                Some(s) => t.status@ == s,
                None => true,
            }
            &&& forall|x: Seq<char>| tag_from(raw_tags, x) ==> #[trigger] str_views(t.tags@).contains(x)
            &&& match query {
                Some(q) => thing_matches(t, q),
                None => true,
            }
        }
}

/// At most `limit` elements, from the front.
pub open spec fn limited<A>(s: Seq<A>, limit: Option<usize>) -> Seq<A> {
    match limit {
        Some(n) => if n < s.len() {
            s.take(n as int)
        } else {
            s
        },
        None => s,
    }
}

fn has_all_tags(t: &Thing, tags: &Vec<String>) -> (r: bool)
    ensures
        r == forall|j: int| 0 <= j < tags@.len() ==> str_views(t.tags@).contains(#[trigger] tags@[j]@),
{
    let mut j: usize = 0;
    while j < tags.len()
        invariant
            j <= tags@.len(),
            forall|q: int| 0 <= q < j ==> str_views(t.tags@).contains(#[trigger] tags@[q]@),
        decreases tags@.len() - j,
    {
        let mut k: usize = 0;
        let mut found = false;
        while k < t.tags.len()
            invariant
                j < tags@.len(),
                k <= t.tags@.len(),
                found == exists|q: int| 0 <= q < k && t.tags@[q]@ == tags@[j as int]@,
            decreases t.tags@.len() - k,
        {
            if str_eq(t.tags[k].as_str(), tags[j].as_str()) {
                found = true;
            }
            k = k + 1;
        }
        if !found {
            proof {
                if str_views(t.tags@).contains(tags@[j as int]@) {
                    let q = choose|q: int| 0 <= q < t.tags@.len() && str_views(t.tags@)[q] == tags@[j as int]@;
                    assert(t.tags@[q]@ == tags@[j as int]@);
                }
            }
            return false;
        }
        proof {
            let q = choose|q: int| 0 <= q < k && t.tags@[q]@ == tags@[j as int]@;
            assert(str_views(t.tags@)[q] == tags@[j as int]@);
        }
        j = j + 1;
    }
    true
}

/// Keeps, in order, the to-dos that pass the listing's filters.
fn keep_for_listing(
    things: Vec<Thing>,
    status: &Option<String>,
    tags: &Vec<String>,
    query: &Option<String>,
    Ghost(raw_tags): Ghost<Seq<Seq<char>>>,
) -> (r: Vec<Thing>)
    requires
        normalized_tags(str_views(tags@), raw_tags),
    ensures
        r@ == things@.filter(listing_keeps(opt_view(*status), raw_tags, opt_view(*query))),
{
    let ghost input = things@;
    let ghost keep = listing_keeps(opt_view(*status), raw_tags, opt_view(*query));
    let mut rest = things;
    let mut reversed: Vec<Thing> = Vec::new();
    while rest.len() > 0
        invariant
            reversed@ + rest@.reverse() == input.reverse(),
        decreases rest@.len(),
    {
        let ghost before = rest@;
        let t = rest.pop().unwrap();
        proof {
            assert(before =~= rest@.push(t));
            assert(before.reverse() =~= seq![t] + rest@.reverse());
            assert(reversed@.push(t) + rest@.reverse() =~= reversed@ + before.reverse());
        }
        reversed.push(t);
    }
    proof {
        assert(rest@.reverse() =~= Seq::<Thing>::empty());
        assert(reversed@ =~= input.reverse());
    }
    let mut out: Vec<Thing> = Vec::new();
    let n = reversed.len();
    while reversed.len() > 0
        invariant
            n == input.len(),
            reversed@.len() <= n,
            reversed@ == input.skip(n - reversed@.len()).reverse(),
            keep == listing_keeps(opt_view(*status), raw_tags, opt_view(*query)),
            normalized_tags(str_views(tags@), raw_tags),
            out@ == input.take(n - reversed@.len()).filter(keep),
        decreases reversed@.len(),
    {
        let ghost i = n - reversed@.len();
        let x = reversed.pop().unwrap();
        proof {
            assert(input.skip(i).reverse().last() == input[i]);
            assert(x == input[i]);
            assert(reversed@ =~= input.skip(i + 1).reverse());
            lemma_filter_take_step(input, i, keep);
        }
        let status_ok = match status {
            Some(s) => str_eq(x.status.as_str(), s.as_str()),
            None => true,
        };
        let tags_ok = has_all_tags(&x, tags);
        let query_ok = match query {
            Some(q) => x.matches_query(q.as_str()),
            None => true,
        };
        proof {
            let tv = str_views(tags@);
            if tags_ok {
                assert forall|y: Seq<char>| tag_from(raw_tags, y) implies #[trigger] str_views(
                    x.tags@,
                ).contains(y) by {
                    assert(tv.contains(y));
                    let j = choose|j: int| 0 <= j < tv.len() && tv[j] == y;
                    assert(tv[j] == tags@[j]@);
                }
            } else {
                let j = choose|j: int| 0 <= j < tags@.len() && !str_views(x.tags@).contains(#[trigger] tags@[j]@);
                assert(tv[j] == tags@[j]@);
                assert(tv.contains(tags@[j]@));
                assert(tag_from(raw_tags, tags@[j]@));
            }
            assert((status_ok && tags_ok && query_ok) == keep(x));
        }
        if status_ok && tags_ok && query_ok {
            out.push(x);
        }
    }
    proof {
        lemma_filter_take_all(input, keep);
    }
    out
}

/// What a listing gives for the fetched to-dos and the listing's options.
pub open spec fn listing_outcome(
    things: Seq<Thing>,
    status: Option<String>,
    tags: Vec<String>,
    query: Option<String>,
    limit: Option<usize>,
    r: Result<Vec<Thing>, ThingError>,
) -> bool {
        match r {
            Ok(v) => (status matches Some(st) ==> status_accepted(st@)) && exists|sorted: Seq<Thing>|
                sorted_for_listing(sorted, things) && v@ == limited(
                    sorted.filter(
                        listing_keeps(
                            match status {
                                Some(st) => Some(ascii_fold(trimmed(st@))),
                                None => None,
                            },
                            str_views(tags@),
                            opt_view(query),
                        ),
                    ),
                    limit,
                ),
            Err(e) => status matches Some(st) && !status_accepted(st@) && is_invalid_input(
                e,
                status_error_message(st@),
            ),
        }
}

/// Orders and filters the to-dos of a listing: most recently modified first,
/// then by name; only those with the status (validated first), all the
/// normalized tags and a match for the query; at most `limit` of them.
pub fn finish_listing(
    things: Vec<Thing>,
    status: Option<String>,
    tags: Vec<String>,
    query: Option<String>,
    limit: Option<usize>,
) -> (r: Result<Vec<Thing>, ThingError>)
    ensures
        listing_outcome(things@, status, tags, query, limit, r),
{
    let ghost raw_tags = str_views(tags@);
    let ghost input = things@;
    let ghost status_param = status;
    let ghost tags_param = tags;
    let ghost query_param = query;
    let sorted = sort_for_listing(things);
    let ghost sorted_view = sorted@;
    let valid_status = match status {
        Some(s) => match validate_status(s) {
            Ok(v) => Some(v),
            Err(e) => return Err(e),
        },
        None => None,
    };
    let normalized = normalize_tags(tags);
    let mut kept = keep_for_listing(sorted, &valid_status, &normalized, &query, Ghost(raw_tags));
    match limit {
        Some(n) => kept.truncate(n),
        None => {},
    }
    proof {
        let st = match status_param {
            Some(x) => Some(ascii_fold(trimmed(x@))),
            None => None::<Seq<char>>,
        };
        assert(opt_view(valid_status) == st);
        assert(sorted_for_listing(sorted_view, input));
        assert(kept@ == limited(sorted_view.filter(listing_keeps(st, str_views(tags_param@), opt_view(query_param))), limit));
    }
    Ok(kept)
}

pub proof fn lemma_filter_subset<A>(s: Seq<A>, p: spec_fn(A) -> bool, i: int)
    requires
        0 <= i < s.filter(p).len(),
    ensures
        p(s.filter(p)[i]),
        s.contains(s.filter(p)[i]),
    decreases s.len(),
{
    reveal(Seq::filter);
    if s.len() > 0 {
        let sub = s.drop_last().filter(p);
        if i < sub.len() {
            assert(s.filter(p)[i] == sub[i]);
            lemma_filter_subset(s.drop_last(), p, i);
            let j = choose|j: int| 0 <= j < s.drop_last().len() && s.drop_last()[j] == sub[i];
            assert(s[j] == sub[i]);
        } else {
            assert(s.filter(p)[i] == s.last());
            assert(s[s.len() - 1] == s.last());
        }
    }
}

/// A listing holds at most `limit` to-dos, each of them one of the fetched
/// to-dos that has the requested status, every requested tag and matches the
/// query.
pub proof fn lemma_listing_respects_filters(
    things: Seq<Thing>,
    status: Option<String>,
    tags: Vec<String>,
    query: Option<String>,
    limit: Option<usize>,
    listed: Vec<Thing>,
)
    requires
        listing_outcome(things, status, tags, query, limit, Ok(listed)),
    ensures
        limit matches Some(n) ==> listed@.len() <= n,
        forall|i: int| 0 <= i < listed@.len() ==> things.contains(#[trigger] listed@[i]),
        forall|i: int|
            0 <= i < listed@.len() ==> (listing_keeps(
                match status {
                    Some(st) => Some(ascii_fold(trimmed(st@))),
                    None => None,
                },
                str_views(tags@),
                opt_view(query),
            ))(#[trigger] listed@[i]),
{
    let keep = listing_keeps(
        match status {
            Some(st) => Some(ascii_fold(trimmed(st@))),
            None => None,
        },
        str_views(tags@),
        opt_view(query),
    );
    let sorted = choose|sorted: Seq<Thing>|
        sorted_for_listing(sorted, things) && listed@ == limited(sorted.filter(keep), limit);
    let f = sorted.filter(keep);
    assert forall|i: int| 0 <= i < listed@.len() implies things.contains(#[trigger] listed@[i])
        && keep(listed@[i]) by {
        assert(listed@[i] == f[i]);
        lemma_filter_subset(sorted, keep, i);
        let j = choose|j: int| 0 <= j < sorted.len() && sorted[j] == f[i];
        let k = listing_key(f[i]);
        assert(sorted.filter(has_key(k)) == things.filter(has_key(k)));
        sorted.lemma_filter_contains(has_key(k), j);
        let q = choose|q: int| 0 <= q < sorted.filter(has_key(k)).len() && sorted.filter(has_key(k))[q] == f[i];
        lemma_filter_subset(things, has_key(k), q);
    }
}

/// Two tag lists that give the same tags once trimmed give the same listing:
/// blank tags filter nothing, and neither order nor repetition matters.
pub proof fn lemma_listing_same_tags(
    things: Seq<Thing>,
    status: Option<String>,
    tags1: Vec<String>,
    tags2: Vec<String>,
    query: Option<String>,
    limit: Option<usize>,
    r: Result<Vec<Thing>, ThingError>,
)
    requires
        forall|x: Seq<char>| tag_from(str_views(tags1@), x) <==> tag_from(str_views(tags2@), x),
    ensures
        listing_outcome(things, status, tags1, query, limit, r) == listing_outcome(
            things,
            status,
            tags2,
            query,
            limit,
            r,
        ),
{
    let st = match status {
        Some(s) => Some(ascii_fold(trimmed(s@))),
        None => None,
    };
    assert(listing_keeps(st, str_views(tags1@), opt_view(query)) =~= listing_keeps(
        st,
        str_views(tags2@),
        opt_view(query),
    ));
}

/// Listing with the raw tags or with their normalized form gives the same result.
pub proof fn lemma_listing_normalized_tags_same(
    things: Seq<Thing>,
    status: Option<String>,
    tags: Vec<String>,
    normalized: Vec<String>,
    query: Option<String>,
    limit: Option<usize>,
    r: Result<Vec<Thing>, ThingError>,
)
    requires
        normalized_tags(str_views(normalized@), str_views(tags@)),
    ensures
        listing_outcome(things, status, tags, query, limit, r) == listing_outcome(
            things,
            status,
            normalized,
            query,
            limit,
            r,
        ),
{
    let raw = str_views(tags@);
    let nt = str_views(normalized@);
    assert forall|x: Seq<char>| tag_from(raw, x) <==> tag_from(nt, x) by {
        if tag_from(raw, x) {
            assert(nt.contains(x));
            let k = choose|k: int| 0 <= k < nt.len() && nt[k] == x;
            let j = choose|j: int| 0 <= j < raw.len() && trimmed(#[trigger] raw[j]) == x;
            lemma_trim_idempotent(raw[j]);
            assert(trimmed(nt[k]) == x);
        }
        if tag_from(nt, x) {
            let k = choose|k: int| 0 <= k < nt.len() && trimmed(#[trigger] nt[k]) == x;
            assert(nt.contains(nt[k]));
            assert(tag_from(raw, nt[k]));
            let j = choose|j: int| 0 <= j < raw.len() && trimmed(#[trigger] raw[j]) == nt[k];
            lemma_trim_idempotent(raw[j]);
        }
    }
    lemma_listing_same_tags(things, status, tags, normalized, query, limit, r);
}

} // verus!
