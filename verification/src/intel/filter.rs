//! Content filter for ingest modules: an LLM decides when it can be asked, and a
//! case-insensitive substring match over the criteria lines decides otherwise.
use vstd::prelude::*;
use crate::text::{
    chars_of, contains_seq, contains_vec, has_prefix, lines, next_line, starts_with_vec,
    string_of, sub_vec, to_lowercase, trim, trim_str, trim_vec, unicode_lowercase, CharSet,
};
use crate::llm_json::{truncate_chars, truncated};
use crate::intel::config::SeerIntelConfig;
use crate::intel::preferences::{api_key_from_prefs_or_env, key_in_force, EnvKeys};

verus! {

/// System prompt for the filter model.
pub const FILTER_SYSTEM_PROMPT: &'static str = "You are a content filter for an intelligence ingest pipeline.
Given filter criteria and source content, decide whether the content should be saved.
Respond ONLY with a JSON object (no markdown, no commentary) with exactly these keys:
\"pass\": boolean \u{2014} true if the content should be saved, false if it should be discarded.
\"reason\": string \u{2014} one short sentence explaining the decision.";

/// Output budget of a filter decision.
pub const FILTER_MAX_OUTPUT_TOKENS: i32 = 256;

/// Content beyond this many characters is not sent to the model.
pub const FILTER_CONTENT_MAX_CHARS: usize = 12000;

/// Whether one criteria line hits the (lowercased) content: the line is not
/// blank and its trimmed, lowercased text occurs in the content.
pub open spec fn line_hits(line: Seq<char>, hay: Seq<char>) -> bool {
    trim(line).len() > 0 && contains_seq(hay, unicode_lowercase(trim(line)))
}

/// Whether some line of the criteria hits the content.
pub open spec fn criteria_hit(filter_text: Seq<char>, content: Seq<char>) -> bool {
    exists|i: int|
        0 <= i < lines(filter_text).len() && line_hits(
            #[trigger] lines(filter_text)[i],
            unicode_lowercase(content),
        )
}

/// What the substring fallback decides: a whitelist saves content that some
/// criteria line hits, a blacklist saves content that no criteria line hits.
pub open spec fn pattern_verdict(filter_text: Seq<char>, is_whitelist: bool, content: Seq<char>) -> bool {
    if is_whitelist {
        criteria_hit(filter_text, content)
    } else {
        !criteria_hit(filter_text, content)
    }
}

/// Fast substring fallback when the LLM is unavailable.
pub fn pattern_match(filter_text: &str, is_whitelist: bool, content: &str) -> (b: bool)
    ensures
        b == pattern_verdict(filter_text@, is_whitelist, content@),
{
    let hay_s = to_lowercase(content);
    let hay = chars_of(hay_s.as_str());
    let f = chars_of(filter_text);
    let mut pos: usize = 0;
    let mut matched = false;
    let ghost mut done: Seq<Seq<char>> = Seq::empty();
    assert(f@.subrange(0, f.len() as int) =~= f@);
    assert(done + lines(f@) =~= lines(f@));
    while pos < f.len()
        invariant
            pos <= f.len(),
            hay@ == unicode_lowercase(content@),
            f@ == filter_text@,
            lines(f@) == done + lines(f@.subrange(pos as int, f.len() as int)),
            matched == (exists|i: int| 0 <= i < done.len() && line_hits(#[trigger] done[i], hay@)),
        decreases f.len() - pos,
    {
        let (line, next) = next_line(&f, pos);
        let t = trim_vec(&line, CharSet::Whitespace);
        let ts = string_of(&t);
        let lp = to_lowercase(ts.as_str());
        let p = chars_of(lp.as_str());
        let hit = p.len() > 0 && contains_vec(&hay, &p);
        proof {
            let nd = done.push(line@);
            assert(nd[done.len() as int] == line@);
            assert((exists|i: int| 0 <= i < nd.len() && line_hits(#[trigger] nd[i], hay@)) == (
            matched || hit)) by {
                if matched {
                    let i = choose|i: int| 0 <= i < done.len() && line_hits(#[trigger] done[i], hay@);
                    assert(nd[i] == done[i]);
                }
                if exists|i: int| 0 <= i < nd.len() && line_hits(#[trigger] nd[i], hay@) {
                    let i = choose|i: int| 0 <= i < nd.len() && line_hits(#[trigger] nd[i], hay@);
                    if i < done.len() {
                        assert(nd[i] == done[i]);
                    }
                }
            }
            assert(done + lines(f@.subrange(pos as int, f.len() as int)) =~= nd + lines(
                f@.subrange(next as int, f.len() as int),
            ));
            done = nd;
        }
        matched = matched || hit;
        pos = next;
    }
    assert(lines(f@.subrange(f.len() as int, f.len() as int)) =~= Seq::<Seq<char>>::empty());
    assert(done =~= lines(f@));
    if is_whitelist {
        matched
    } else {
        !matched
    }
}

/// Whether the model has to be consulted: only when the criteria are not blank.
pub fn filter_needs_model(filter_text: &str) -> (b: bool)
    ensures
        b == (trim(filter_text@).len() > 0),
{
    let t = trim_str(filter_text);
    !t.as_str().is_empty()
}

/// Whether content should be saved (passes the filter).  `model_verdict` is what
/// the model decided when it was consulted, `None` when it was not or failed:
/// blank criteria pass everything, a model verdict stands, and otherwise the
/// substring fallback decides over the trimmed criteria.
pub fn passes_content_filter(
    filter_text: &str,
    is_whitelist: bool,
    content: &str,
    model_verdict: Option<bool>,
) -> (b: bool)
    ensures
        trim(filter_text@).len() == 0 ==> b,
        trim(filter_text@).len() > 0 ==> b == match model_verdict {
            Some(v) => v,
            None => pattern_verdict(trim(filter_text@), is_whitelist, content@),
        },
{
    let t = trim_str(filter_text);
    if t.as_str().is_empty() {
        return true;
    }
    match model_verdict {
        Some(v) => v,
        None => pattern_match(t.as_str(), is_whitelist, content),
    }
}

/// Why the model cannot be asked.
#[derive(Debug, Clone, Copy, PartialEq, Eq, Structural)]
pub enum FilterSetupError {
    /// No Gemini key in the preferences or the environment.
    MissingApiKey,
    /// The summary model name is blank (after dropping a `models/` prefix).
    EmptyModel,
}

impl FilterSetupError {
    pub fn message(&self) -> (r: String)
        ensures
            *self == FilterSetupError::MissingApiKey ==> r@
                == "missing Gemini API key (Intel preferences or GOOGLE_API_KEY)"@,
            *self == FilterSetupError::EmptyModel ==> r@ == "filter model is empty"@,
    {
        match self {
            FilterSetupError::MissingApiKey => String::from_str(
                "missing Gemini API key (Intel preferences or GOOGLE_API_KEY)",
            ),
            FilterSetupError::EmptyModel => String::from_str("filter model is empty"),
        }
    }
}

/// What is handed to the model to decide one item.
#[derive(Debug, Clone)]
pub struct FilterRequest {
    pub api_key: String,
    pub model: String,
    pub user_prompt: String,
}

pub open spec fn models_prefix() -> Seq<char> {
    seq!['m', 'o', 'd', 'e', 'l', 's', '/']
}

/// A model name with one leading `models/` removed.
pub open spec fn without_models_prefix(m: Seq<char>) -> Seq<char> {
    if has_prefix(m, models_prefix()) {
        m.subrange(7, m.len() as int)
    } else {
        m
    }
}

pub open spec fn filter_mode_text(is_whitelist: bool) -> Seq<char> {
    if is_whitelist {
        "whitelist \u{2014} save content that matches the criteria"@
    } else {
        "blacklist \u{2014} discard content that matches the criteria"@
    }
}

/// The user prompt: the mode, the trimmed criteria and the clipped content.
pub open spec fn filter_prompt(filter_text: Seq<char>, is_whitelist: bool, content: Seq<char>) -> Seq<
    char,
> {
    "Filter mode: "@ + filter_mode_text(is_whitelist) + "\n\nCriteria:\n"@ + trim(filter_text)
        + "\n\nContent:\n"@ + truncated(content, FILTER_CONTENT_MAX_CHARS as nat)
}

/// `models/` removed once from the front of a trimmed name.
pub fn strip_models_prefix(m: &str) -> (r: String)
    ensures
        r@ == without_models_prefix(m@),
{
    let v = chars_of(m);
    let p: Vec<char> = vec!['m', 'o', 'd', 'e', 'l', 's', '/'];
    if starts_with_vec(&v, &p) {
        let rest = sub_vec(&v, 7, v.len());
        string_of(&rest)
    } else {
        string_of(&v)
    }
}

/// The model request for a filter decision, or why none can be made: a key
/// must be in force and the summary model must name a model.
pub fn filter_request(
    config: &SeerIntelConfig,
    filter_text: &str,
    is_whitelist: bool,
    content: &str,
    env: &EnvKeys,
) -> (r: Result<FilterRequest, FilterSetupError>)
    ensures
        key_in_force(config.api_key@, *env).len() == 0 ==> r == Err::<FilterRequest, _>(
            FilterSetupError::MissingApiKey,
        ),
        key_in_force(config.api_key@, *env).len() > 0 && without_models_prefix(
            trim(config.summary_model@),
        ).len() == 0 ==> r == Err::<FilterRequest, _>(FilterSetupError::EmptyModel),
        r is Ok <==> key_in_force(config.api_key@, *env).len() > 0 && without_models_prefix(
            trim(config.summary_model@),
        ).len() > 0,
        r matches Ok(q) ==> {
            &&& q.api_key@ == key_in_force(config.api_key@, *env)
            &&& q.model@ == without_models_prefix(trim(config.summary_model@))
            &&& q.user_prompt@ == filter_prompt(filter_text@, is_whitelist, content@)
        },
{
    let api_key = api_key_from_prefs_or_env(config.api_key.as_str(), env);
    if api_key.as_str().is_empty() {
        return Err(FilterSetupError::MissingApiKey);
    }
    let trimmed = trim_str(config.summary_model.as_str());
    let model = strip_models_prefix(trimmed.as_str());
    if model.as_str().is_empty() {
        return Err(FilterSetupError::EmptyModel);
    }
    let criteria = trim_str(filter_text);
    let clipped = truncate_chars(content, FILTER_CONTENT_MAX_CHARS);
    let mut prompt = String::from_str("Filter mode: ");
    if is_whitelist {
        prompt.append("whitelist \u{2014} save content that matches the criteria");
    } else {
        prompt.append("blacklist \u{2014} discard content that matches the criteria");
    }
    prompt.append("\n\nCriteria:\n");
    prompt.append(criteria.as_str());
    prompt.append("\n\nContent:\n");
    prompt.append(clipped.as_str());
    Ok(FilterRequest { api_key, model, user_prompt: prompt })
}

/// Whitelist and blacklist over the same criteria and content always decide oppositely.
pub proof fn lemma_whitelist_blacklist_opposite(filter_text: Seq<char>, content: Seq<char>)
    ensures
        pattern_verdict(filter_text, true, content) == !pattern_verdict(filter_text, false, content),
{
}

/// Criteria made only of blank lines hit nothing, so a blacklist of them
/// saves everything and a whitelist of them saves nothing.
pub proof fn lemma_blank_lines_hit_nothing(filter_text: Seq<char>, content: Seq<char>)
    requires
        forall|i: int| 0 <= i < lines(filter_text).len() ==> trim(#[trigger] lines(filter_text)[i]).len() == 0,
    ensures
        pattern_verdict(filter_text, false, content),
        !pattern_verdict(filter_text, true, content),
{
}

} // verus!
