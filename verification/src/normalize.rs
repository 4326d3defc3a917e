use vstd::prelude::*;

use crate::error::{ThingError, is_invalid_input};
use crate::model::str_views;
use crate::order::{
    Cmp, compare_chars, lemma_str_lt_asymmetric, lemma_str_lt_irreflexive, lemma_str_lt_transitive,
    str_lt,
};
use crate::text::{ascii_fold, chars_of, is_ws, str_eq, to_ascii_lowercase, trim, trimmed};

verus! {

/// The message of the error for an empty required field.
pub open spec fn empty_field_message(field: Seq<char>) -> Seq<char> {
    field + " must not be empty"@
}

/// Trims a required text field and refuses it when nothing is left.
pub fn normalize_text(value: String, field: &str) -> (r: Result<String, ThingError>)
    ensures
        match r {
            Ok(t) => trimmed(value@).len() > 0 && t@ == trimmed(value@),
            Err(e) => trimmed(value@).len() == 0 && is_invalid_input(e, empty_field_message(field@)),
        },
{
    let trimmed_value = trim(value.as_str());
    if trimmed_value.as_str().unicode_len() == 0 {
        return Err(ThingError::InvalidInput(String::from_str(field).concat(" must not be empty")));
    }
    Ok(trimmed_value)
}

/// The statuses a to-do can be given.
pub open spec fn is_known_status(s: Seq<char>) -> bool {
    s == "open"@ || s == "completed"@ || s == "canceled"@
}

pub open spec fn invalid_status_message(normalized: Seq<char>) -> Seq<char> {
    "invalid status: "@ + normalized + ". expected open, completed, or canceled"@
}

/// A raw status is accepted when, trimmed and lower-cased, it is a known status.
pub open spec fn status_accepted(raw: Seq<char>) -> bool {
    trimmed(raw).len() > 0 && is_known_status(ascii_fold(trimmed(raw)))
}

/// The message of the error for a raw status that is not accepted.
pub open spec fn status_error_message(raw: Seq<char>) -> Seq<char> {
    if trimmed(raw).len() == 0 {
        empty_field_message("status"@)
    } else {
        invalid_status_message(ascii_fold(trimmed(raw)))
    }
}

/// Trims and lower-cases a status, and accepts only `open`, `completed` and `canceled`.
pub fn validate_status(status: String) -> (r: Result<String, ThingError>)
    ensures
        match r {
            Ok(s) => status_accepted(status@) && s@ == ascii_fold(trimmed(status@)),
            Err(e) => !status_accepted(status@) && is_invalid_input(e, status_error_message(status@)),
        },
{
    let text = match normalize_text(status, "status") {
        Ok(t) => t,
        Err(e) => return Err(e),
    };
    let normalized = to_ascii_lowercase(text.as_str());
    if str_eq(normalized.as_str(), "open") || str_eq(normalized.as_str(), "completed") || str_eq(
        normalized.as_str(),
        "canceled",
    ) {
        Ok(normalized)
    } else {
        Err(
            ThingError::InvalidInput(
                String::from_str("invalid status: ").concat(normalized.as_str()).concat(
                    ". expected open, completed, or canceled",
                ),
            ),
        )
    }
}

/// Every element comes before every later one: sorted, with no repetition.
pub open spec fn strictly_sorted(s: Seq<Seq<char>>) -> bool {
    forall|i: int, j: int| 0 <= i < j < s.len() ==> str_lt(#[trigger] s[i], #[trigger] s[j])
}

/// `x` is a tag that one of the raw `input` tags gives once trimmed.
pub open spec fn tag_from(input: Seq<Seq<char>>, x: Seq<char>) -> bool {
    x.len() > 0 && exists|i: int| 0 <= i < input.len() && trimmed(#[trigger] input[i]) == x
}

/// `out` is the normalized form of the raw tags `input`: the trimmed, non-empty
/// tags, sorted, each once.
pub open spec fn normalized_tags(out: Seq<Seq<char>>, input: Seq<Seq<char>>) -> bool {
    &&& strictly_sorted(out)
    &&& forall|x: Seq<char>| #[trigger] out.contains(x) <==> tag_from(input, x)
}

fn insert_sorted_unique(out: &mut Vec<String>, t: String)
    requires
        strictly_sorted(str_views(old(out)@)),
    ensures
        strictly_sorted(str_views(final(out)@)),
        forall|x: Seq<char>| #[trigger] str_views(final(out)@).contains(x) <==> (str_views(
            old(out)@,
        ).contains(x) || x == t@),
{
    let tc = chars_of(t.as_str());
    let ghost v = str_views(out@);
    let mut p: usize = 0;
    while p < out.len() && compare_chars(&chars_of(out[p].as_str()), &tc) == Cmp::Less
        invariant
            out@ == old(out)@,
            v == str_views(out@),
            tc@ == t@,
            p <= out@.len(),
            forall|k: int| 0 <= k < p ==> str_lt(#[trigger] v[k], t@),
        decreases out@.len() - p,
    {
        p = p + 1;
    }
    if p < out.len() {
        if compare_chars(&chars_of(out[p].as_str()), &tc) == Cmp::Equal {
            proof {
                assert(v[p as int] == t@);
                assert(v.contains(t@));
            }
            return ;
        }
    }
    proof {
        assert forall|k: int| p <= k < v.len() implies str_lt(t@, #[trigger] v[k]) by {
            if k > p {
                lemma_str_lt_transitive(t@, v[p as int], v[k]);
            }
        }
        assert forall|k: int| 0 <= k < p implies !(#[trigger] v[k] == t@) by {
            lemma_str_lt_irreflexive(t@);
        }
    }
    out.insert(p, t);
    proof {
        let w = str_views(out@);
        assert(w =~= v.insert(p as int, t@));
        assert forall|i: int, j: int| 0 <= i < j < w.len() implies str_lt(
            #[trigger] w[i],
            #[trigger] w[j],
        ) by {
            if i < p && j < p {
            } else if i < p && j == p {
            } else if i < p {
                lemma_str_lt_transitive(w[i], t@, w[j]);
            } else if i == p {
            } else {
            }
        }
        assert forall|x: Seq<char>| #[trigger] w.contains(x) <==> (v.contains(x) || x == t@) by {
            if w.contains(x) {
                let k = choose|k: int| 0 <= k < w.len() && w[k] == x;
                if k < p {
                    assert(v[k] == x);
                } else if k > p {
                    assert(v[k - 1] == x);
                }
            }
            if v.contains(x) {
                let k = choose|k: int| 0 <= k < v.len() && v[k] == x;
                if k < p {
                    assert(w[k] == x);
                } else {
                    assert(w[k + 1] == x);
                }
            }
            if x == t@ {
                assert(w[p as int] == x);
            }
        }
    }
}

/// Trims each tag, drops the empty ones, sorts them and removes repetitions.
pub fn normalize_tags(tags: Vec<String>) -> (r: Vec<String>)
    ensures
        normalized_tags(str_views(r@), str_views(tags@)),
{
    let ghost input = str_views(tags@);
    let mut out: Vec<String> = Vec::new();
    let mut i: usize = 0;
    while i < tags.len()
        invariant
            input == str_views(tags@),
            i <= tags@.len(),
            strictly_sorted(str_views(out@)),
            forall|x: Seq<char>| #[trigger]
                str_views(out@).contains(x) <==> tag_from(input.subrange(0, i as int), x),
        decreases tags@.len() - i,
    {
        let t = trim(tags[i].as_str());
        let ghost before = str_views(out@);
        let nonempty = t.as_str().unicode_len() > 0;
        if nonempty {
            insert_sorted_unique(&mut out, t);
        }
        proof {
            let pre = input.subrange(0, i as int);
            let post = input.subrange(0, i + 1);
            assert forall|x: Seq<char>| #[trigger]
                str_views(out@).contains(x) <==> tag_from(post, x) by {
                if tag_from(post, x) {
                    let k = choose|k: int| 0 <= k < post.len() && trimmed(#[trigger] post[k]) == x;
                    if k < i {
                        assert(pre[k] == post[k]);
                        assert(tag_from(pre, x));
                    }
                }
                if tag_from(pre, x) {
                    let k = choose|k: int| 0 <= k < pre.len() && trimmed(#[trigger] pre[k]) == x;
                    assert(post[k] == pre[k]);
                }
                if nonempty && x == trimmed(input[i as int]) {
                    assert(post[i as int] == input[i as int]);
                }
            }
        }
        i = i + 1;
    }
    proof {
        assert(input.subrange(0, input.len() as int) =~= input);
    }
    out
}

/// A trimmed string has no whitespace at either end.
pub proof fn lemma_trimmed_ends(s: Seq<char>)
    ensures
        trimmed(s).len() > 0 ==> !is_ws(trimmed(s)[0]) && !is_ws(trimmed(s).last()),
    decreases s.len(),
{
    if s.len() > 0 && is_ws(s[0]) {
        lemma_trimmed_ends(s.drop_first());
    } else if s.len() > 0 && is_ws(s.last()) {
        lemma_trimmed_ends(s.drop_last());
    }
}

/// Trimming twice is trimming once.
pub proof fn lemma_trim_idempotent(s: Seq<char>)
    ensures
        trimmed(trimmed(s)) == trimmed(s),
{
    lemma_trimmed_ends(s);
    let t = trimmed(s);
    if t.len() > 0 {
        assert(!is_ws(t[0]));
        assert(!is_ws(t.last()));
    }
}

/// Two sorted sequences without repetition that hold the same strings are equal.
pub proof fn lemma_strictly_sorted_unique(a: Seq<Seq<char>>, b: Seq<Seq<char>>)
    requires
        strictly_sorted(a),
        strictly_sorted(b),
        forall|x: Seq<char>| a.contains(x) <==> b.contains(x),
    ensures
        a == b,
    decreases a.len(),
{
    if a.len() == 0 {
        if b.len() > 0 {
            assert(b.contains(b[0]));
        }
        assert(a =~= b);
    } else {
        assert(a.contains(a[0]));
        assert(b.contains(a[0]));
        assert(b.len() > 0);
        assert(b.contains(b[0]));
        assert(a.contains(b[0]));
        if a[0] != b[0] {
            let j = choose|j: int| 0 <= j < b.len() && b[j] == a[0];
            let k = choose|k: int| 0 <= k < a.len() && a[k] == b[0];
            assert(j > 0);
            assert(k > 0);
            assert(str_lt(b[0], b[j]));
            assert(str_lt(a[0], a[k]));
            lemma_str_lt_asymmetric(a[0], b[0]);
        }
        let ta = a.drop_first();
        let tb = b.drop_first();
        assert forall|x: Seq<char>| ta.contains(x) <==> tb.contains(x) by {
            if ta.contains(x) {
                let k = choose|k: int| 0 <= k < ta.len() && ta[k] == x;
                assert(a[k + 1] == x);
                assert(str_lt(a[0], a[k + 1]));
                lemma_str_lt_irreflexive(x);
                assert(a.contains(x));
                let j = choose|j: int| 0 <= j < b.len() && b[j] == x;
                assert(j != 0);
                assert(tb[j - 1] == x);
            }
            if tb.contains(x) {
                let k = choose|k: int| 0 <= k < tb.len() && tb[k] == x;
                assert(b[k + 1] == x);
                assert(str_lt(b[0], b[k + 1]));
                lemma_str_lt_irreflexive(x);
                assert(b.contains(x));
                let j = choose|j: int| 0 <= j < a.len() && a[j] == x;
                assert(j != 0);
                assert(ta[j - 1] == x);
            }
        }
        lemma_strictly_sorted_unique(ta, tb);
        assert(a =~= seq![a[0]] + ta);
        assert(b =~= seq![b[0]] + tb);
    }
}

/// Normalizing tags that are already normalized changes nothing.
pub proof fn lemma_normalize_tags_idempotent(
    input: Seq<Seq<char>>,
    once: Seq<Seq<char>>,
    twice: Seq<Seq<char>>,
)
    requires
        normalized_tags(once, input),
        normalized_tags(twice, once),
    ensures
        twice == once,
{
    assert forall|x: Seq<char>| twice.contains(x) <==> once.contains(x) by {
        if once.contains(x) {
            assert(tag_from(input, x));
            let j = choose|j: int| 0 <= j < input.len() && trimmed(#[trigger] input[j]) == x;
            lemma_trim_idempotent(input[j]);
            let k = choose|k: int| 0 <= k < once.len() && once[k] == x;
            assert(trimmed(once[k]) == x);
            assert(tag_from(once, x));
        }
        if twice.contains(x) {
            assert(tag_from(once, x));
            let k = choose|k: int| 0 <= k < once.len() && trimmed(#[trigger] once[k]) == x;
            assert(once.contains(once[k]));
            assert(tag_from(input, once[k]));
            let j = choose|j: int| 0 <= j < input.len() && trimmed(#[trigger] input[j]) == once[k];
            lemma_trim_idempotent(input[j]);
        }
    }
    lemma_strictly_sorted_unique(twice, once);
}

/// The normalized tags depend only on which raw tags are given: neither their
/// order nor their repetition changes the result.
pub proof fn lemma_normalize_tags_order_insensitive(
    in1: Seq<Seq<char>>,
    in2: Seq<Seq<char>>,
    out1: Seq<Seq<char>>,
    out2: Seq<Seq<char>>,
)
    requires
        forall|x: Seq<char>| in1.contains(x) <==> in2.contains(x),
        normalized_tags(out1, in1),
        normalized_tags(out2, in2),
    ensures
        out1 == out2,
{
    assert forall|x: Seq<char>| out1.contains(x) <==> out2.contains(x) by {
        if tag_from(in1, x) {
            let j = choose|j: int| 0 <= j < in1.len() && trimmed(#[trigger] in1[j]) == x;
            assert(in1.contains(in1[j]));
            let k = choose|k: int| 0 <= k < in2.len() && in2[k] == in1[j];
            assert(trimmed(in2[k]) == x);
        }
        if tag_from(in2, x) {
            let j = choose|j: int| 0 <= j < in2.len() && trimmed(#[trigger] in2[j]) == x;
            assert(in2.contains(in2[j]));
            let k = choose|k: int| 0 <= k < in1.len() && in1[k] == in2[j];
            assert(trimmed(in1[k]) == x);
        }
    }
    lemma_strictly_sorted_unique(out1, out2);
}

proof fn lemma_known_status_fixed(v: Seq<char>)
    requires
        is_known_status(v),
    ensures
        trimmed(v) == v,
        ascii_fold(v) == v,
{
    reveal_strlit("open");
    reveal_strlit("completed");
    reveal_strlit("canceled");
    assert(!is_ws(v[0]) && !is_ws(v.last()));
    assert(ascii_fold(v) =~= v);
}

/// A status that validation accepts comes out as a known status, and validating
/// it again gives it back unchanged.
pub proof fn lemma_validate_status_idempotent(raw: Seq<char>)
    requires
        status_accepted(raw),
    ensures
        is_known_status(ascii_fold(trimmed(raw))),
        status_accepted(ascii_fold(trimmed(raw))),
        ascii_fold(trimmed(ascii_fold(trimmed(raw)))) == ascii_fold(trimmed(raw)),
{
    lemma_known_status_fixed(ascii_fold(trimmed(raw)));
}

/// Normalizing a text field twice is normalizing it once.
pub proof fn lemma_normalize_text_idempotent(value: Seq<char>)
    requires
        trimmed(value).len() > 0,
    ensures
        trimmed(trimmed(value)) == trimmed(value),
{
    lemma_trim_idempotent(value);
}

} // verus!
