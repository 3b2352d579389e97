//! Normalizing user-entered subreddit names (`"  r/rust "`, `"/r/rust"` -> `"rust"`).
use vstd::prelude::*;
use crate::text::{
    chars_of, lemma_trim_set_shape, string_of, sub_vec, trim, trim_start_set, trim_start_vec,
    trim_vec, CharSet,
};

verus! {

/// ASCII lowercase of one character (`char::to_ascii_lowercase`).
pub open spec fn ascii_lower(c: char) -> char {
    if 'A' <= c && c <= 'Z' {
        ((c as u32) + 32) as char
    } else {
        c
    }
}

pub fn to_ascii_lower(c: char) -> (r: char)
    ensures
        r == ascii_lower(c),
{
    if 'A' <= c && c <= 'Z' {
        ((c as u8) + 32) as char
    } else {
        c
    }
}

/// Whether `s` begins with the lowercase text `p`, ignoring ASCII case in `s`.
pub open spec fn has_prefix_ci(s: Seq<char>, p: Seq<char>) -> bool {
    p.len() <= s.len() && forall|k: int| 0 <= k < p.len() ==> ascii_lower(#[trigger] s[k]) == p[k]
}

pub open spec fn slash_r_slash() -> Seq<char> {
    seq!['/', 'r', '/']
}

pub open spec fn r_slash() -> Seq<char> {
    seq!['r', '/']
}

/// The subreddit name in a user entry: trimmed, with any leading `/r/` or
/// `r/` (in either case, possibly repeated and spaced) removed.
pub open spec fn normalized_subreddit(s: Seq<char>) -> Seq<char>
    decreases s.len(),
{
    let t = trim(s);
    proof {
        lemma_trim_set_shape(s, CharSet::Whitespace);
    }
    if has_prefix_ci(t, slash_r_slash()) {
        let rest = t.subrange(3, t.len() as int);
        proof {
            lemma_trim_set_shape(rest, CharSet::Whitespace);
        }
        normalized_subreddit(trim_start_set(rest, CharSet::Whitespace))
    } else if has_prefix_ci(t, r_slash()) {
        let rest = t.subrange(2, t.len() as int);
        proof {
            lemma_trim_set_shape(rest, CharSet::Whitespace);
        }
        normalized_subreddit(trim_start_set(rest, CharSet::Whitespace))
    } else {
        t
    }
}

fn starts_with_ci(v: &Vec<char>, p: &Vec<char>) -> (b: bool)
    ensures
        b == has_prefix_ci(v@, p@),
{
    if p.len() > v.len() {
        return false;
    }
    let mut i: usize = 0;
    while i < p.len()
        invariant
            p.len() <= v.len(),
            i <= p.len(),
            forall|k: int| 0 <= k < i ==> ascii_lower(#[trigger] v@[k]) == p@[k],
        decreases p.len() - i,
    {
        if to_ascii_lower(v[i]) != p[i] {
            return false;
        }
        i = i + 1;
    }
    true
}

/// The subreddit name in a user entry.
pub fn normalize_subreddit(raw: &str) -> (r: String)
    ensures
        r@ == normalized_subreddit(raw@),
{
    let long: Vec<char> = vec!['/', 'r', '/'];
    let short: Vec<char> = vec!['r', '/'];
    let mut cur = chars_of(raw);
    loop
        invariant
            normalized_subreddit(cur@) == normalized_subreddit(raw@),
            long@ == slash_r_slash(),
            short@ == r_slash(),
        decreases cur.len(),
    {
        let t = trim_vec(&cur, CharSet::Whitespace);
        proof {
            lemma_trim_set_shape(cur@, CharSet::Whitespace);
        }
        if starts_with_ci(&t, &long) {
            let rest = sub_vec(&t, 3, t.len());
            proof {
                lemma_trim_set_shape(rest@, CharSet::Whitespace);
            }
            cur = trim_start_vec(&rest, CharSet::Whitespace);
        } else if starts_with_ci(&t, &short) {
            let rest = sub_vec(&t, 2, t.len());
            proof {
                lemma_trim_set_shape(rest@, CharSet::Whitespace);
            }
            cur = trim_start_vec(&rest, CharSet::Whitespace);
        } else {
            return string_of(&t);
        }
    }
}

/// The names of a list of entries: each normalized, blanks dropped, order kept.
pub open spec fn normalized_list(items: Seq<Seq<char>>) -> Seq<Seq<char>>
    decreases items.len(),
{
    if items.len() == 0 {
        Seq::empty()
    } else {
        let rest = normalized_list(items.drop_last());
        let n = normalized_subreddit(items.last());
        if n.len() > 0 {
            rest.push(n)
        } else {
            rest
        }
    }
}

/// Character sequences of a list of strings.
pub open spec fn string_views(items: Seq<String>) -> Seq<Seq<char>> {
    items.map_values(|s: String| s@)
}

pub fn normalize_string_list(items: &[String]) -> (r: Vec<String>)
    ensures
        string_views(r@) == normalized_list(string_views(items@)),
{
    let mut out: Vec<String> = Vec::new();
    let mut i: usize = 0;
    while i < items.len()
        invariant
            i <= items@.len(),
            string_views(out@) == normalized_list(string_views(items@.take(i as int))),
        decreases items.len() - i,
    {
        let n = normalize_subreddit(items[i].as_str());
        let ghost before = out@;
        let ghost prefix = string_views(items@.take(i as int + 1));
        assert(prefix.drop_last() =~= string_views(items@.take(i as int)));
        assert(prefix.last() == items@[i as int]@);
        if !n.as_str().is_empty() {
            out.push(n);
            assert(string_views(out@) =~= string_views(before).push(n@));
        }
        i = i + 1;
    }
    assert(items@.take(items@.len() as int) =~= items@);
    out
}

/// Public helper for tools and other modules that write Reddit sources.
pub fn normalize_subreddit_names(items: &[String]) -> (r: Vec<String>)
    ensures
        string_views(r@) == normalized_list(string_views(items@)),
{
    normalize_string_list(items)
}

/// A normalized name is trimmed and carries no `r/` or `/r/` prefix.
pub proof fn lemma_normalized_shape(s: Seq<char>)
    ensures
        trim(normalized_subreddit(s)) == normalized_subreddit(s),
        !has_prefix_ci(normalized_subreddit(s), slash_r_slash()),
        !has_prefix_ci(normalized_subreddit(s), r_slash()),
    decreases s.len(),
{
    let t = trim(s);
    lemma_trim_set_shape(s, CharSet::Whitespace);
    if has_prefix_ci(t, slash_r_slash()) {
        let rest = t.subrange(3, t.len() as int);
        lemma_trim_set_shape(rest, CharSet::Whitespace);
        lemma_normalized_shape(trim_start_set(rest, CharSet::Whitespace));
    } else if has_prefix_ci(t, r_slash()) {
        let rest = t.subrange(2, t.len() as int);
        lemma_trim_set_shape(rest, CharSet::Whitespace);
        lemma_normalized_shape(trim_start_set(rest, CharSet::Whitespace));
    } else {
        crate::llm_json::lemma_trim_idempotent(s);
    }
}

/// Normalizing a normalized name changes nothing.
pub proof fn lemma_normalize_idempotent(s: Seq<char>)
    ensures
        normalized_subreddit(normalized_subreddit(s)) == normalized_subreddit(s),
{
    lemma_normalized_shape(s);
}

/// Every name in a normalized list is non-empty, trimmed, free of a leading
/// `r/` or `/r/` (any case) and already normalized, and the list is no longer
/// than the input.
pub proof fn lemma_normalized_list_clean(items: Seq<Seq<char>>)
    ensures
        forall|k: int|
            0 <= k < normalized_list(items).len() ==> (#[trigger] normalized_list(items)[k]).len()
                > 0 && normalized_subreddit(normalized_list(items)[k]) == normalized_list(items)[k]
                && trim(normalized_list(items)[k]) == normalized_list(items)[k]
                && !has_prefix_ci(normalized_list(items)[k], r_slash())
                && !has_prefix_ci(normalized_list(items)[k], slash_r_slash()),
        normalized_list(items).len() <= items.len(),
    decreases items.len(),
{
    if items.len() > 0 {
        lemma_normalized_list_clean(items.drop_last());
        lemma_normalize_idempotent(items.last());
        lemma_normalized_shape(items.last());
    }
}

} // verus!
