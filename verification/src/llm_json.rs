//! Recovering a JSON object from model output that may be fenced in markdown or
//! wrapped in prose, and bounding prompt sizes.
use vstd::prelude::*;
use crate::text::{
    chars_of, has_prefix, has_suffix, index_of, lemma_index_of, lemma_trim_set_shape,
    starts_with_vec, ends_with_vec, string_of, sub_vec, trim, trim_start_set,
    trim_start_vec, trim_vec, find_char, lemma_skip_fwd_bounds, skip_fwd,
    skip_back, CharSet,
};

verus! {

pub open spec fn fence() -> Seq<char> {
    seq!['`', '`', '`']
}

pub open spec fn json_tag_lower() -> Seq<char> {
    seq!['j', 's', 'o', 'n']
}

pub open spec fn json_tag_upper() -> Seq<char> {
    seq!['J', 'S', 'O', 'N']
}

/// What `strip_json_fence` returns: the trimmed text, or, when it opens with a
/// markdown fence, the fenced body (language tag `json`/`JSON`, leading line
/// breaks and a closing fence removed) trimmed again.
pub open spec fn stripped_fence(s: Seq<char>) -> Seq<char> {
    let t = trim(s);
    if !has_prefix(t, fence()) {
        t
    } else {
        let rest = t.subrange(3, t.len() as int);
        let rest = if has_prefix(rest, json_tag_lower()) || has_prefix(rest, json_tag_upper()) {
            rest.subrange(4, rest.len() as int)
        } else {
            rest
        };
        let rest = trim_start_set(rest, CharSet::LineBreak);
        let rest = if has_suffix(rest, fence()) {
            rest.subrange(0, rest.len() - 3)
        } else {
            rest
        };
        trim(rest)
    }
}

/// Index of the last `c` before `j` (or -1 when there is none).
pub open spec fn last_index_of(s: Seq<char>, c: char, j: int) -> int
    decreases j,
{
    if j <= 0 || j > s.len() {
        -1
    } else if s[j - 1] == c {
        j - 1
    } else {
        last_index_of(s, c, j - 1)
    }
}

pub proof fn lemma_last_index_of(s: Seq<char>, c: char, j: int)
    requires
        0 <= j <= s.len(),
    ensures
        -1 <= last_index_of(s, c, j) < j,
        last_index_of(s, c, j) >= 0 ==> s[last_index_of(s, c, j)] == c,
        forall|k: int| last_index_of(s, c, j) < k < j ==> #[trigger] s[k] != c,
    decreases j,
{
    if j > 0 && s[j - 1] != c {
        lemma_last_index_of(s, c, j - 1);
    }
}

/// What `extract_first_json_object` returns: the span from the first `{` to the
/// last `}`, both included, when both exist in that order.
pub open spec fn first_json_object(s: Seq<char>) -> Option<Seq<char>> {
    let start = index_of(s, '{', 0);
    let end = last_index_of(s, '}', s.len() as int);
    if start >= s.len() || end < 0 || end < start {
        None
    } else {
        Some(s.subrange(start, end + 1))
    }
}

/// What `truncate_chars` returns: at most the first `max` characters.
pub open spec fn truncated(s: Seq<char>, max: nat) -> Seq<char> {
    if s.len() <= max {
        s
    } else {
        s.subrange(0, max as int)
    }
}

/// The texts a JSON decoder tries, in order: the trimmed output, its unfenced
/// body, and the first `{...}` span of that body when there is one.
pub open spec fn json_candidate_texts(raw: Seq<char>) -> Seq<Seq<char>> {
    let t = trim(raw);
    let c = stripped_fence(t);
    match first_json_object(c) {
        Some(o) => seq![t, c, o],
        None => seq![t, c],
    }
}

fn fence_vec() -> (r: Vec<char>)
    ensures
        r@ == fence(),
{
    vec!['`', '`', '`']
}

/// Strips a markdown code fence (optionally tagged `json`/`JSON`) around model output.
pub fn strip_json_fence(s: &str) -> (r: String)
    ensures
        r@ == stripped_fence(s@),
{
    let v = chars_of(s);
    let t = trim_vec(&v, CharSet::Whitespace);
    let f = fence_vec();
    if !starts_with_vec(&t, &f) {
        return string_of(&t);
    }
    let rest = sub_vec(&t, 3, t.len());
    let lower: Vec<char> = vec!['j', 's', 'o', 'n'];
    let upper: Vec<char> = vec!['J', 'S', 'O', 'N'];
    let rest = if starts_with_vec(&rest, &lower) || starts_with_vec(&rest, &upper) {
        sub_vec(&rest, 4, rest.len())
    } else {
        rest
    };
    let rest = trim_start_vec(&rest, CharSet::LineBreak);
    let rest = if ends_with_vec(&rest, &f) {
        sub_vec(&rest, 0, rest.len() - 3)
    } else {
        rest
    };
    let out = trim_vec(&rest, CharSet::Whitespace);
    string_of(&out)
}

fn rfind_char(v: &Vec<char>, c: char) -> (r: Option<usize>)
    ensures
        r is None <==> last_index_of(v@, c, v.len() as int) < 0,
        r matches Some(k) ==> k == last_index_of(v@, c, v.len() as int),
{
    let mut j = v.len();
    while j > 0 && v[j - 1] != c
        invariant
            j <= v.len(),
            last_index_of(v@, c, j as int) == last_index_of(v@, c, v.len() as int),
        decreases j,
    {
        j = j - 1;
    }
    if j == 0 {
        None
    } else {
        Some(j - 1)
    }
}

/// The span from the first `{` to the last `}`, both included.
pub fn extract_first_json_object(s: &str) -> (r: Option<String>)
    ensures
        r matches Some(o) ==> first_json_object(s@) == Some(o@),
        r is None ==> first_json_object(s@) is None,
{
    let v = chars_of(s);
    let start = find_char(&v, '{', 0);
    proof {
        lemma_index_of(v@, '{', 0);
    }
    if start >= v.len() {
        return None;
    }
    let end = match rfind_char(&v, '}') {
        Some(e) => e,
        None => {
            return None;
        },
    };
    proof {
        lemma_last_index_of(v@, '}', v.len() as int);
    }
    if end < start {
        return None;
    }
    let o = sub_vec(&v, start, end + 1);
    Some(string_of(&o))
}

/// At most the first `max` characters of `s`.
pub fn truncate_chars(s: &str, max: usize) -> (r: String)
    ensures
        r@ == truncated(s@, max as nat),
{
    let v = chars_of(s);
    if v.len() <= max {
        return string_of(&v);
    }
    let p = sub_vec(&v, 0, max);
    string_of(&p)
}

/// The candidate texts that a JSON decoder should try on raw model output, in order.
pub fn json_candidates(raw: &str) -> (r: Vec<String>)
    ensures
        r@.len() == json_candidate_texts(raw@).len(),
        forall|i: int| 0 <= i < r@.len() ==> #[trigger] r@[i]@ == json_candidate_texts(raw@)[i],
{
    let t = trim_str_local(raw);
    let c = strip_json_fence(t.as_str());
    let mut out: Vec<String> = Vec::new();
    let o = extract_first_json_object(c.as_str());
    out.push(t);
    out.push(c);
    match o {
        Some(o) => {
            out.push(o);
        },
        None => {},
    }
    out
}

fn trim_str_local(s: &str) -> (r: String)
    ensures
        r@ == trim(s@),
{
    crate::text::trim_str(s)
}

/// Trimming is idempotent.
pub proof fn lemma_trim_idempotent(s: Seq<char>)
    ensures
        trim(trim(s)) == trim(s),
{
    let t = trim(s);
    lemma_trim_set_shape(s, CharSet::Whitespace);
    lemma_skip_fwd_bounds(t, CharSet::Whitespace, 0);
    if t.len() > 0 {
        assert(skip_fwd(t, CharSet::Whitespace, 0) == 0);
        assert(skip_back(t, CharSet::Whitespace, 0, t.len() as int) == t.len());
    }
    assert(trim(t) =~= t);
}

/// Output without an opening fence comes back trimmed and otherwise unchanged.
pub proof fn lemma_unfenced_is_trimmed(s: Seq<char>)
    requires
        !has_prefix(trim(s), fence()),
    ensures
        stripped_fence(s) == trim(s),
{
}

/// A truncated text is a prefix of the text it was cut from, no longer than the bound.
pub proof fn lemma_truncated_is_bounded_prefix(s: Seq<char>, max: nat)
    ensures
        truncated(s, max).len() <= max,
        truncated(s, max).len() == if s.len() <= max { s.len() } else { max },
        has_prefix(s, truncated(s, max)),
{
    assert(s.subrange(0, truncated(s, max).len() as int) =~= truncated(s, max));
}

/// An extracted object is delimited by braces.
pub proof fn lemma_object_is_braced(s: Seq<char>)
    requires
        first_json_object(s) is Some,
    ensures
        first_json_object(s)->0.len() >= 1,
        first_json_object(s)->0[0] == '{',
        first_json_object(s)->0.last() == '}',
{
    lemma_index_of(s, '{', 0);
    lemma_last_index_of(s, '}', s.len() as int);
}

} // verus!
