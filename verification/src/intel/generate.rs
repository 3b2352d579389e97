//! What surrounds the title / summary / event model calls of intel ingest:
//! checking that a model can be asked, building prompts, and turning raw model
//! output into a stored title, summary or event.
use vstd::prelude::*;
use crate::text::{
    chars_of, find_set, has_prefix, in_set, lemma_find_set, lemma_skip_back_bounds,
    lemma_skip_fwd_bounds, lines, next_line, scan_to_set, starts_with_vec, string_of, sub_vec,
    trim, trim_set, trim_str, trim_vec, CharSet, is_ws, skip_fwd, skip_back,
};
use crate::intel::config::SeerIntelConfig;
use crate::intel::filter::{strip_models_prefix, without_models_prefix};
use crate::intel::preferences::{api_key_from_prefs_or_env, key_in_force, EnvKeys};

verus! {

/// Longest stored title, in characters.
pub const INTEL_TITLE_MAX_RUNES: usize = 200;

/// Output budget of an event extraction.
pub const INTEL_EVENT_EXTRACT_MAX_TOKENS: i32 = 1024;

/// System prompt for summaries.
pub const INTEL_SUMMARY_SYSTEM_PROMPT: &'static str = "You write concise factual summaries for an intelligence ingest pipeline.
Given raw source content, respond with a short plain-text summary only (no markdown headings, no preamble).
Aim for 2\u{2013}6 sentences. If the content is empty or unusable, reply with a single sentence stating that.";

/// System prompt for titles.
pub const INTEL_TITLE_SYSTEM_PROMPT: &'static str = "You label rows in an intelligence ingest pipeline.
Given raw source content, respond with one short plain-text title only: no markdown, no preamble, no quotation marks.
At most 12 words. Describe the subject (what it is about), not the medium (avoid \"post\", \"article\", \"document\" unless necessary).";

/// System prompt for event extraction.
pub const INTEL_EVENT_EXTRACT_SYSTEM_PROMPT: &'static str = "You extract a geographic location and an event time from an intelligence summary.
Respond ONLY with a JSON object (no markdown, no commentary) with exactly these keys:
\"address\": string \u{2014} a concise postal-style or place name string suitable for a geocoder (empty if none).
\"datetime\": string \u{2014} RFC3339 timestamp in UTC (e.g. \"2006-01-02T15:04:05Z\").
If the summary implies a date but not a time, use 00:00:00Z for that date.
If no date can be inferred, use the current UTC time in RFC3339.";

/// Whether no character of `s` is in `set`.
pub open spec fn free_of(s: Seq<char>, set: CharSet) -> bool {
    forall|k: int| 0 <= k < s.len() ==> !in_set(set, #[trigger] s[k])
}

/// The stored title for raw model output: trimmed, cut at the first line
/// break, stripped of surrounding quotes, and cut to 200 characters (then
/// trimmed again) when longer.
pub open spec fn normalized_title(raw: Seq<char>) -> Seq<char> {
    let s = trim(raw);
    if s.len() == 0 {
        Seq::empty()
    } else {
        let k = find_set(s, CharSet::LineBreak, 0);
        let s = if k < s.len() {
            trim(s.subrange(0, k))
        } else {
            s
        };
        let s = trim_set(s, CharSet::Quote);
        if s.len() <= INTEL_TITLE_MAX_RUNES {
            s
        } else {
            trim(s.subrange(0, INTEL_TITLE_MAX_RUNES as int))
        }
    }
}

pub open spec fn dashes() -> Seq<char> {
    seq!['-', '-', '-']
}

/// The first usable title among `ls`: a line that is not blank, not a `---`
/// separator and normalizes to a non-empty title; `"Intel"` when none is.
pub open spec fn first_title(ls: Seq<Seq<char>>) -> Seq<char>
    decreases ls.len(),
{
    if ls.len() == 0 {
        "Intel"@
    } else {
        let t = trim(ls[0]);
        if t.len() == 0 || has_prefix(t, dashes()) || normalized_title(t).len() == 0 {
            first_title(ls.drop_first())
        } else {
            normalized_title(t)
        }
    }
}

/// The title used when the model gives none: from the first usable line.
pub open spec fn fallback_title(content: Seq<char>) -> Seq<char> {
    first_title(lines(content))
}

/// Cleans model output to a single-line title.
pub fn normalize_intel_title(raw: &str) -> (r: String)
    ensures
        r@ == normalized_title(raw@),
{
    let v = chars_of(raw);
    let s = trim_vec(&v, CharSet::Whitespace);
    if s.len() == 0 {
        return String::new();
    }
    let k = scan_to_set(&s, CharSet::LineBreak, 0);
    let s = if k < s.len() {
        let head = sub_vec(&s, 0, k);
        trim_vec(&head, CharSet::Whitespace)
    } else {
        s
    };
    let s = trim_vec(&s, CharSet::Quote);
    if s.len() <= INTEL_TITLE_MAX_RUNES {
        return string_of(&s);
    }
    let head = sub_vec(&s, 0, INTEL_TITLE_MAX_RUNES);
    let out = trim_vec(&head, CharSet::Whitespace);
    string_of(&out)
}

/// The title taken from the content itself when the model's title is empty.
pub fn intel_title_fallback(content: &str) -> (r: String)
    ensures
        r@ == fallback_title(content@),
{
    let c = chars_of(content);
    let dash: Vec<char> = vec!['-', '-', '-'];
    let mut pos: usize = 0;
    assert(c@.subrange(0, c.len() as int) =~= c@);
    while pos < c.len()
        invariant
            pos <= c.len(),
            c@ == content@,
            dash@ == dashes(),
            first_title(lines(c@)) == first_title(lines(c@.subrange(pos as int, c.len() as int))),
        decreases c.len() - pos,
    {
        let (line, next) = next_line(&c, pos);
        let ghost rest = lines(c@.subrange(next as int, c.len() as int));
        assert((seq![line@] + rest).drop_first() =~= rest);
        assert((seq![line@] + rest)[0] == line@);
        let t = trim_vec(&line, CharSet::Whitespace);
        if t.len() != 0 && !starts_with_vec(&t, &dash) {
            let ts = string_of(&t);
            let n = normalize_intel_title(ts.as_str());
            if !n.as_str().is_empty() {
                return n;
            }
        }
        pos = next;
    }
    assert(lines(c@.subrange(c.len() as int, c.len() as int)) =~= Seq::<Seq<char>>::empty());
    String::from_str("Intel")
}

/// The stored title for model output: its normalization, or the content's
/// fallback title when that is empty.
pub fn title_from_model_output(raw: &str, content: &str) -> (r: String)
    ensures
        r@ == if normalized_title(raw@).len() == 0 {
            fallback_title(content@)
        } else {
            normalized_title(raw@)
        },
{
    let t = normalize_intel_title(raw);
    if t.as_str().is_empty() {
        intel_title_fallback(content)
    } else {
        t
    }
}

/// The stored summary for model output: the trimmed text.
pub fn summary_from_model_output(raw: &str) -> (r: String)
    ensures
        r@ == trim(raw@),
{
    trim_str(raw)
}

/// Why a generation model cannot be asked.
#[derive(Debug, Clone, Copy, PartialEq, Eq, Structural)]
pub enum GenerateSetupError {
    /// No Gemini key in the preferences or the environment.
    MissingApiKey,
    /// The chosen model name is blank.
    EmptyModel,
}

impl GenerateSetupError {
    pub fn message(&self) -> (r: String)
        ensures
            *self == GenerateSetupError::MissingApiKey ==> r@
                == "missing Gemini API key (Intel preferences or GOOGLE_API_KEY)"@,
            *self == GenerateSetupError::EmptyModel ==> r@ == "generate model is empty"@,
    {
        match self {
            GenerateSetupError::MissingApiKey => String::from_str(
                "missing Gemini API key (Intel preferences or GOOGLE_API_KEY)",
            ),
            GenerateSetupError::EmptyModel => String::from_str("generate model is empty"),
        }
    }
}

/// The key and model name a generation client is built with, or why none can
/// be: a key must be in force and the trimmed model name must not be blank;
/// a leading `models/` is then dropped.
pub fn generation_client_params(config: &SeerIntelConfig, model: &str, env: &EnvKeys) -> (r: Result<
    (String, String),
    GenerateSetupError,
>)
    ensures
        key_in_force(config.api_key@, *env).len() == 0 ==> r == Err::<(String, String), _>(
            GenerateSetupError::MissingApiKey,
        ),
        key_in_force(config.api_key@, *env).len() > 0 && trim(model@).len() == 0 ==> r == Err::<
            (String, String),
            _,
        >(GenerateSetupError::EmptyModel),
        r is Ok <==> key_in_force(config.api_key@, *env).len() > 0 && trim(model@).len() > 0,
        r matches Ok(p) ==> p.0@ == key_in_force(config.api_key@, *env) && p.1@
            == without_models_prefix(trim(model@)),
{
    let api_key = api_key_from_prefs_or_env(config.api_key.as_str(), env);
    if api_key.as_str().is_empty() {
        return Err(GenerateSetupError::MissingApiKey);
    }
    let m = trim_str(model);
    if m.as_str().is_empty() {
        return Err(GenerateSetupError::EmptyModel);
    }
    let m = strip_models_prefix(m.as_str());
    Ok((api_key, m))
}

/// The user prompt for event extraction, or `None` when the trimmed summary
/// is empty (there is nothing to extract from).
pub fn event_extract_prompt(summary: &str, now_rfc3339: &str) -> (r: Option<String>)
    ensures
        trim(summary@).len() == 0 <==> r is None,
        r matches Some(p) ==> p@ == "Current UTC time: "@ + now_rfc3339@ + "\n\nSummary:\n"@
            + trim(summary@),
{
    let s = trim_str(summary);
    if s.as_str().is_empty() {
        return None;
    }
    let mut p = String::from_str("Current UTC time: ");
    p.append(now_rfc3339);
    p.append("\n\nSummary:\n");
    p.append(s.as_str());
    Some(p)
}

/// Message for an empty summary.
pub fn empty_summary_message() -> (r: String)
    ensures
        r@ == "extract intel event: empty summary"@,
{
    String::from_str("extract intel event: empty summary")
}

/// What chrono's `DateTime::parse_from_rfc3339` makes of a text: the instant as
/// Unix seconds and sub-second nanoseconds, or the error message.
pub uninterp spec fn rfc3339_parse(s: Seq<char>) -> Result<(i64, u32), Seq<char>>;

/// A parse outcome with its error message taken by its characters.
pub open spec fn instant_view(r: Result<(i64, u32), String>) -> Result<(i64, u32), Seq<char>> {
    match r {
        Ok(v) => Ok(v),
        Err(e) => Err(e@),
    }
}

/// `chrono::DateTime::parse_from_rfc3339`, converted to UTC seconds and
/// nanoseconds; the error is chrono's message.  The result is a function of the
/// text alone; the RFC 3339 grammar itself is not restated.
#[verifier::external_body]
fn parse_rfc3339(s: &str) -> (r: Result<(i64, u32), String>)
    ensures
        rfc3339_parse(s@) == instant_view(r),
{
    match chrono::DateTime::parse_from_rfc3339(s) {
        Ok(d) => Ok((d.timestamp(), d.timestamp_subsec_nanos())),
        Err(e) => Err(e.to_string()),
    }
}

/// Address and inferred event time extracted from a summary.
#[derive(Debug, Clone)]
pub struct ExtractedEvent {
    pub address: String,
    /// Unix seconds (UTC).
    pub timestamp: i64,
    /// Nanoseconds within the second.
    pub nanos: u32,
}

/// The event from the decoded model fields: the trimmed address, and the
/// trimmed datetime read as RFC 3339; an unreadable datetime is an error
/// `"event extract datetime: <chrono's message>"`.
pub fn event_from_fields(address: &str, datetime: &str) -> (r: Result<ExtractedEvent, String>)
    ensures
        rfc3339_parse(trim(datetime@)) is Ok <==> r is Ok,
        r matches Ok(ev) ==> ev.address@ == trim(address@) && rfc3339_parse(trim(datetime@))
            == Ok::<(i64, u32), Seq<char>>((ev.timestamp, ev.nanos)),
        r matches Err(m) ==> rfc3339_parse(trim(datetime@)) matches Err(e) && m@
            == "event extract datetime: "@ + e,
{
    let d = trim_str(datetime);
    match parse_rfc3339(d.as_str()) {
        Ok((secs, nanos)) => Ok(ExtractedEvent { address: trim_str(address), timestamp: secs, nanos }),
        Err(e) => {
            let mut m = String::from_str("event extract datetime: ");
            m.append(e.as_str());
            Err(m)
        },
    }
}

/// Trimming a text free of `set` characters leaves it free of them.
pub proof fn lemma_trim_keeps_free_of(s: Seq<char>, trimmed: CharSet, set: CharSet)
    requires
        free_of(s, set),
    ensures
        free_of(trim_set(s, trimmed), set),
{
    lemma_skip_fwd_bounds(s, trimmed, 0);
    let a = crate::text::skip_fwd(s, trimmed, 0);
    lemma_skip_back_bounds(s, trimmed, a, s.len() as int);
    let t = trim_set(s, trimmed);
    assert forall|k: int| 0 <= k < t.len() implies !in_set(set, #[trigger] t[k]) by {
        assert(t[k] == s[a + k]);
    }
}

/// A stored title is a single line of at most 200 characters.
pub proof fn lemma_title_is_one_short_line(raw: Seq<char>)
    ensures
        normalized_title(raw).len() <= INTEL_TITLE_MAX_RUNES,
        free_of(normalized_title(raw), CharSet::LineBreak),
{
    let s = trim(raw);
    crate::text::lemma_trim_set_shape(raw, CharSet::Whitespace);
    if s.len() > 0 {
        let k = find_set(s, CharSet::LineBreak, 0);
        lemma_find_set(s, CharSet::LineBreak, 0);
        let s1 = if k < s.len() {
            trim(s.subrange(0, k))
        } else {
            s
        };
        if k < s.len() {
            let h = s.subrange(0, k);
            assert(free_of(h, CharSet::LineBreak)) by {
                assert forall|j: int| 0 <= j < h.len() implies !in_set(
                    CharSet::LineBreak,
                    #[trigger] h[j],
                ) by {
                    assert(h[j] == s[j]);
                }
            }
            lemma_trim_keeps_free_of(h, CharSet::Whitespace, CharSet::LineBreak);
        } else {
            assert(free_of(s, CharSet::LineBreak)) by {
                assert forall|j: int| 0 <= j < s.len() implies !in_set(
                    CharSet::LineBreak,
                    #[trigger] s[j],
                ) by {}
            }
        }
        lemma_trim_keeps_free_of(s1, CharSet::Quote, CharSet::LineBreak);
        let s2 = trim_set(s1, CharSet::Quote);
        if s2.len() > INTEL_TITLE_MAX_RUNES {
            let h = s2.subrange(0, INTEL_TITLE_MAX_RUNES as int);
            assert(free_of(h, CharSet::LineBreak)) by {
                assert forall|j: int| 0 <= j < h.len() implies !in_set(
                    CharSet::LineBreak,
                    #[trigger] h[j],
                ) by {
                    assert(h[j] == s2[j]);
                }
            }
            lemma_trim_keeps_free_of(h, CharSet::Whitespace, CharSet::LineBreak);
            crate::text::lemma_trim_set_shape(h, CharSet::Whitespace);
        }
    }
}

/// Whether every character of `s` is white space.
pub open spec fn all_ws(s: Seq<char>) -> bool {
    forall|k: int| 0 <= k < s.len() ==> is_ws(#[trigger] s[k])
}

/// `core` followed by white space only, trimmed, is `core` when `core` starts
/// and ends with a character that is not white space.
proof fn lemma_trim_core_ws(core: Seq<char>, w: Seq<char>)
    requires
        core.len() > 0,
        !is_ws(core[0]),
        !is_ws(core.last()),
        all_ws(w),
    ensures
        trim(core + w) == core,
{
    let x = core + w;
    assert(x[0] == core[0]);
    assert(skip_fwd(x, CharSet::Whitespace, 0) == 0);
    lemma_skip_back_bounds(x, CharSet::Whitespace, 0, x.len() as int);
    let b = skip_back(x, CharSet::Whitespace, 0, x.len() as int);
    if b < core.len() {
        assert(x[core.len() - 1] == core.last());
        assert(in_set(CharSet::Whitespace, x[core.len() - 1]));
    }
    if b > core.len() {
        assert(x[b - 1] == w[b - 1 - core.len()]);
    }
    assert(b == core.len());
    assert(x.subrange(0, b) =~= core);
}

/// Trimming `w1 + core + w2 + tail` (white space around `core`, whose ends are
/// not white space) leaves `core` followed by a part of `w2 + tail` that ends
/// in a character that is not white space, or nothing.
proof fn lemma_trim_around_core(w1: Seq<char>, core: Seq<char>, rest: Seq<char>)
    requires
        all_ws(w1),
        core.len() > 0,
        !is_ws(core[0]),
        !is_ws(core.last()),
    ensures
        core.len() <= trim(w1 + core + rest).len() <= core.len() + rest.len(),
        trim(w1 + core + rest).subrange(0, core.len() as int) == core,
        forall|j: int|
            core.len() <= j < trim(w1 + core + rest).len() ==> trim(w1 + core + rest)[j] == rest[j
                - core.len()],
        trim(w1 + core + rest).len() > core.len() ==> !is_ws(
            trim(w1 + core + rest)[trim(w1 + core + rest).len() - 1],
        ),
{
    let raw = w1 + core + rest;
    let n1 = w1.len() as int;
    let nc = core.len() as int;
    assert forall|j: int| 0 <= j < nc implies raw[n1 + j] == core[j] by {}
    assert forall|j: int| 0 <= j < rest.len() implies raw[n1 + nc + j] == rest[j] by {}
    assert forall|j: int| 0 <= j < n1 implies raw[j] == w1[j] by {}
    lemma_skip_fwd_bounds(raw, CharSet::Whitespace, 0);
    let a = skip_fwd(raw, CharSet::Whitespace, 0);
    if a < n1 {
        assert(is_ws(raw[a]));
    }
    if a > n1 {
        assert(in_set(CharSet::Whitespace, raw[n1]));
    }
    assert(a == n1);
    lemma_skip_back_bounds(raw, CharSet::Whitespace, a, raw.len() as int);
    let b = skip_back(raw, CharSet::Whitespace, a, raw.len() as int);
    if b <= n1 + nc - 1 {
        assert(in_set(CharSet::Whitespace, raw[n1 + nc - 1]));
    }
    let s = trim(raw);
    assert(s =~= raw.subrange(a, b));
    assert(s.subrange(0, nc) =~= core);
}

/// A model that answers with a quoted phrase, with any white space around it
/// and possibly further lines after it, gets exactly the phrase as the title
/// (when the phrase is one line of at most 200 characters, neither padded
/// with white space nor itself starting or ending with a quote).
pub proof fn lemma_quoted_answer_gives_phrase(w1: Seq<char>, phrase: Seq<char>, w2: Seq<char>, tail: Seq<char>)
    requires
        all_ws(w1),
        all_ws(w2),
        0 < phrase.len() <= INTEL_TITLE_MAX_RUNES,
        !is_ws(phrase[0]),
        !is_ws(phrase.last()),
        !in_set(CharSet::Quote, phrase[0]),
        !in_set(CharSet::Quote, phrase.last()),
        free_of(phrase, CharSet::LineBreak),
        tail.len() == 0 || in_set(CharSet::LineBreak, tail[0]),
    ensures
        normalized_title(w1 + seq!['"'] + phrase + seq!['"'] + w2 + tail) == phrase,
{
    let core = seq!['"'] + phrase + seq!['"'];
    let rest = w2 + tail;
    let raw = w1 + seq!['"'] + phrase + seq!['"'] + w2 + tail;
    assert(raw =~= w1 + core + rest);
    let nc = core.len() as int;
    assert(core[0] == '"' && core[nc - 1] == '"');
    lemma_trim_around_core(w1, core, rest);
    let s = trim(raw);
    assert forall|j: int| 0 <= j < nc implies s[j] == core[j] by {
        assert(s.subrange(0, nc)[j] == s[j]);
    }
    let k = find_set(s, CharSet::LineBreak, 0);
    lemma_find_set(s, CharSet::LineBreak, 0);
    if k < nc {
        assert(s[k] == core[k]);
        if 0 < k < nc - 1 {
            assert(core[k] == phrase[k - 1]);
        }
    }
    assert(k >= nc);
    assert forall|j: int| nc <= j < k implies is_ws(#[trigger] s[j]) by {
        if j - nc < w2.len() {
            assert(rest[j - nc] == w2[j - nc]);
        } else {
            assert(j - nc < rest.len());
            assert(tail.len() > 0);
            let j0 = nc + w2.len();
            assert(j0 < k);
            assert(s[j0] == rest[j0 - nc]);
            assert(rest[w2.len() as int] == tail[0]);
            assert(!in_set(CharSet::LineBreak, s[j0]));
        }
    }
    proof_line_is_core(s, core, k);
    lemma_strip_quotes(phrase);
}

proof fn proof_line_is_core(s: Seq<char>, core: Seq<char>, k: int)
    requires
        core.len() > 0,
        !is_ws(core[0]),
        !is_ws(core.last()),
        core.len() <= k <= s.len(),
        forall|j: int| 0 <= j < core.len() ==> s[j] == core[j],
        forall|j: int| core.len() <= j < k ==> is_ws(#[trigger] s[j]),
        s.len() > core.len() ==> !is_ws(s[s.len() - 1]),
    ensures
        (if k < s.len() {
            trim(s.subrange(0, k))
        } else {
            s
        }) == core,
{
    let nc = core.len() as int;
    if k < s.len() {
        let w = s.subrange(nc, k);
        assert(s.subrange(0, k) =~= core + w);
        assert forall|j: int| 0 <= j < w.len() implies is_ws(#[trigger] w[j]) by {
            assert(w[j] == s[nc + j]);
        }
        lemma_trim_core_ws(core, w);
    } else {
        if s.len() > nc {
            assert(is_ws(s[s.len() - 1]));
        }
        assert(s =~= core);
    }
}

proof fn lemma_strip_quotes(phrase: Seq<char>)
    requires
        phrase.len() > 0,
        !in_set(CharSet::Quote, phrase[0]),
        !in_set(CharSet::Quote, phrase.last()),
    ensures
        trim_set(seq!['"'] + phrase + seq!['"'], CharSet::Quote) == phrase,
{
    let core = seq!['"'] + phrase + seq!['"'];
    let nc = core.len() as int;
    assert(core[0] == '"' && core[nc - 1] == '"');
    assert(core[1] == phrase[0]);
    assert(core[nc - 2] == phrase.last());
    assert(skip_fwd(core, CharSet::Quote, 1) == 1);
    assert(skip_fwd(core, CharSet::Quote, 0) == 1);
    assert(skip_back(core, CharSet::Quote, 1, nc - 1) == nc - 1);
    assert(skip_back(core, CharSet::Quote, 1, nc) == nc - 1);
    assert(trim_set(core, CharSet::Quote) =~= phrase);
}

/// Model output of at most 200 characters never leaves a title that starts
/// or ends with a quote character.
pub proof fn lemma_short_title_unquoted(raw: Seq<char>)
    requires
        trim(raw).len() <= INTEL_TITLE_MAX_RUNES,
    ensures
        normalized_title(raw).len() > 0 ==> !in_set(CharSet::Quote, normalized_title(raw)[0])
            && !in_set(CharSet::Quote, normalized_title(raw).last()),
{
    let s = trim(raw);
    crate::text::lemma_trim_set_shape(raw, CharSet::Whitespace);
    if s.len() > 0 {
        let k = find_set(s, CharSet::LineBreak, 0);
        lemma_find_set(s, CharSet::LineBreak, 0);
        let line = if k < s.len() {
            trim(s.subrange(0, k))
        } else {
            s
        };
        if k < s.len() {
            crate::text::lemma_trim_set_shape(s.subrange(0, k), CharSet::Whitespace);
        }
        assert(line.len() <= s.len());
        crate::text::lemma_trim_set_shape(line, CharSet::Quote);
    }
}

} // verus!
