//! Singleton intel preferences: how the stored row becomes runtime config, how a
//! submitted form is stored, and what the preferences page shows.
use vstd::prelude::*;
use crate::text::{trim, trim_str};
use crate::intel::config::{
    default_embed_model, default_embedding_model, default_generate_model, default_summary_model,
    default_title_model, lemma_default_models_nonempty, SeerIntelConfig,
};

verus! {

/// The stored preferences row (`id = 1`); timestamps are Unix seconds.
#[derive(Debug, Clone)]
pub struct IntelPreferences {
    pub id: i64,
    pub created_at: Option<i64>,
    pub updated_at: Option<i64>,
    pub geocoding_api_key: String,
    pub title_model: String,
    pub summary_model: String,
    pub embedding_model: String,
    pub api_key: String,
}

/// The submitted preferences form.
#[derive(Debug, Clone)]
pub struct PreferencesForm {
    pub geocoding_api_key: String,
    pub api_key: String,
    pub title_model: String,
    pub summary_model: String,
    pub embedding_model: String,
}

/// The Gemini key variables of the process environment, as read at the edge.
#[derive(Debug, Clone)]
pub struct EnvKeys {
    /// `GOOGLE_API_KEY`, when set.
    pub google: Option<String>,
    /// `GEMINI_API_KEY`, when set.
    pub gemini: Option<String>,
}

/// A model name, or the fallback when the trimmed name is blank.
pub open spec fn model_or_default_spec(raw: Seq<char>, fallback: Seq<char>) -> Seq<char> {
    if trim(raw).len() == 0 {
        fallback
    } else {
        trim(raw)
    }
}

/// The Gemini key in force: the trimmed preferences key, else `GOOGLE_API_KEY`,
/// else `GEMINI_API_KEY`, else empty.
pub open spec fn key_in_force(prefs_key: Seq<char>, env: EnvKeys) -> Seq<char> {
    if trim(prefs_key).len() > 0 {
        trim(prefs_key)
    } else {
        match env.google {
            Some(g) => g@,
            None => match env.gemini {
                Some(g) => g@,
                None => Seq::empty(),
            },
        }
    }
}

/// Whether a text is empty after trimming.
pub fn is_blank(s: &str) -> (b: bool)
    ensures
        b == (trim(s@).len() == 0),
{
    let t = trim_str(s);
    t.as_str().is_empty()
}

pub fn model_or_default(raw: &str, fallback: &str) -> (r: String)
    ensures
        r@ == model_or_default_spec(raw@, fallback@),
{
    let t = trim_str(raw);
    if t.as_str().is_empty() {
        String::from_str(fallback)
    } else {
        t
    }
}

/// Whether `c` is the runtime config of the row `prefs`.
pub open spec fn config_of(c: SeerIntelConfig, prefs: IntelPreferences) -> bool {
    &&& c.geocoding_api_key@ == prefs.geocoding_api_key@
    &&& c.title_model@ == model_or_default_spec(prefs.title_model@, default_generate_model())
    &&& c.summary_model@ == model_or_default_spec(prefs.summary_model@, default_generate_model())
    &&& c.embedding_model@ == model_or_default_spec(prefs.embedding_model@, default_embed_model())
    &&& c.api_key@ == prefs.api_key@
}

/// Runtime config from the stored row; blank model names take their defaults.
pub fn config_from_prefs(prefs: &IntelPreferences) -> (c: SeerIntelConfig)
    ensures
        config_of(c, *prefs),
{
    let dt = default_title_model();
    let ds = default_summary_model();
    let de = default_embedding_model();
    SeerIntelConfig {
        geocoding_api_key: prefs.geocoding_api_key.clone(),
        title_model: model_or_default(prefs.title_model.as_str(), dt.as_str()),
        summary_model: model_or_default(prefs.summary_model.as_str(), ds.as_str()),
        embedding_model: model_or_default(prefs.embedding_model.as_str(), de.as_str()),
        api_key: prefs.api_key.clone(),
    }
}

/// Gemini API key: the preferences key first, then the environment.
pub fn api_key_from_prefs_or_env(prefs_key: &str, env: &EnvKeys) -> (r: String)
    ensures
        r@ == key_in_force(prefs_key@, *env),
{
    let key = trim_str(prefs_key);
    if !key.as_str().is_empty() {
        return key;
    }
    match &env.google {
        Some(g) => g.clone(),
        None => match &env.gemini {
            Some(g) => g.clone(),
            None => String::new(),
        },
    }
}

/// Whether `p` is the row created at `now` when none is stored.
pub open spec fn is_new_row(p: IntelPreferences, now: i64) -> bool {
    &&& p.id == 1
    &&& p.created_at == Some(now)
    &&& p.updated_at == Some(now)
    &&& p.geocoding_api_key@ == Seq::<char>::empty()
    &&& p.title_model@ == default_generate_model()
    &&& p.summary_model@ == default_generate_model()
    &&& p.embedding_model@ == default_embed_model()
    &&& p.api_key@ == Seq::<char>::empty()
}

/// The row created when none is stored yet, stamped `now`.
pub fn new_preferences_row(now: i64) -> (p: IntelPreferences)
    ensures
        is_new_row(p, now),
{
    IntelPreferences {
        id: 1,
        created_at: Some(now),
        updated_at: Some(now),
        geocoding_api_key: String::new(),
        title_model: default_title_model(),
        summary_model: default_summary_model(),
        embedding_model: default_embedding_model(),
        api_key: String::new(),
    }
}

/// The stored row after saving `prefs` onto `existing` at time `now`: keys are
/// stored as given, blank model names are replaced by their defaults.
pub fn saved_preferences(existing: &IntelPreferences, prefs: IntelPreferences, now: i64) -> (p:
    IntelPreferences)
    ensures
        p.id == existing.id,
        p.created_at == existing.created_at,
        p.updated_at == Some(now),
        p.geocoding_api_key@ == prefs.geocoding_api_key@,
        p.title_model@ == model_or_default_spec(prefs.title_model@, default_generate_model()),
        p.summary_model@ == model_or_default_spec(prefs.summary_model@, default_generate_model()),
        p.embedding_model@ == model_or_default_spec(prefs.embedding_model@, default_embed_model()),
        p.api_key@ == prefs.api_key@,
{
    let dt = default_title_model();
    let ds = default_summary_model();
    let de = default_embedding_model();
    IntelPreferences {
        id: existing.id,
        created_at: existing.created_at,
        updated_at: Some(now),
        geocoding_api_key: prefs.geocoding_api_key,
        title_model: model_or_default(prefs.title_model.as_str(), dt.as_str()),
        summary_model: model_or_default(prefs.summary_model.as_str(), ds.as_str()),
        embedding_model: model_or_default(prefs.embedding_model.as_str(), de.as_str()),
        api_key: prefs.api_key,
    }
}

/// The preferences submitted by the form: every field trimmed, no timestamps.
pub fn preferences_from_form(form: &PreferencesForm) -> (p: IntelPreferences)
    ensures
        p.id == 1,
        p.created_at is None,
        p.updated_at is None,
        p.geocoding_api_key@ == trim(form.geocoding_api_key@),
        p.title_model@ == trim(form.title_model@),
        p.summary_model@ == trim(form.summary_model@),
        p.embedding_model@ == trim(form.embedding_model@),
        p.api_key@ == trim(form.api_key@),
{
    IntelPreferences {
        id: 1,
        created_at: None,
        updated_at: None,
        geocoding_api_key: trim_str(form.geocoding_api_key.as_str()),
        title_model: trim_str(form.title_model.as_str()),
        summary_model: trim_str(form.summary_model.as_str()),
        embedding_model: trim_str(form.embedding_model.as_str()),
        api_key: trim_str(form.api_key.as_str()),
    }
}

/// The row shown when loading failed: defaults, no keys.
pub fn empty_prefs() -> (p: IntelPreferences)
    ensures
        p.id == 1,
        p.created_at is None,
        p.updated_at is None,
        p.geocoding_api_key@ == Seq::<char>::empty(),
        p.title_model@ == default_generate_model(),
        p.summary_model@ == default_generate_model(),
        p.embedding_model@ == default_embed_model(),
        p.api_key@ == Seq::<char>::empty(),
{
    IntelPreferences {
        id: 1,
        created_at: None,
        updated_at: None,
        geocoding_api_key: String::new(),
        title_model: default_title_model(),
        summary_model: default_summary_model(),
        embedding_model: default_embedding_model(),
        api_key: String::new(),
    }
}

/// `(id, display name)` pairs by their character sequences.
pub open spec fn choice_views(cs: Seq<(String, String)>) -> Seq<(Seq<char>, Seq<char>)> {
    cs.map_values(|p: (String, String)| (p.0@, p.1@))
}

/// Whether some choice has the id `cur`.
pub open spec fn has_choice(cs: Seq<(Seq<char>, Seq<char>)>, cur: Seq<char>) -> bool {
    exists|i: int| 0 <= i < cs.len() && (#[trigger] cs[i]).0 == cur
}

/// The choices with `cur` put first when it is not empty and not yet offered.
pub open spec fn with_choice(cs: Seq<(Seq<char>, Seq<char>)>, cur: Seq<char>) -> Seq<
    (Seq<char>, Seq<char>),
> {
    if cur.len() > 0 && !has_choice(cs, cur) {
        seq![(cur, cur)] + cs
    } else {
        cs
    }
}

/// Keeps the current selection in its dropdown.
pub fn ensure_choice(choices: &mut Vec<(String, String)>, current: &str)
    ensures
        choice_views(final(choices)@) == with_choice(choice_views(old(choices)@), current@),
{
    let ghost old_views = choice_views(choices@);
    if current.is_empty() {
        return;
    }
    let cur = String::from_str(current);
    let mut i: usize = 0;
    while i < choices.len()
        invariant
            i <= choices.len(),
            old_views == choice_views(choices@),
            cur@ == current@,
            forall|k: int| 0 <= k < i ==> choices@[k].0@ != current@,
        decreases choices.len() - i,
    {
        if choices[i].0 == cur {
            assert(old_views[i as int].0 == current@);
            return;
        }
        i = i + 1;
    }
    assert(!has_choice(old_views, current@)) by {
        assert forall|k: int| 0 <= k < old_views.len() implies (#[trigger] old_views[k]).0
            != current@ by {
            assert(choices@[k].0@ != current@);
        }
    }
    let first = (cur.clone(), cur);
    choices.insert(0, first);
    assert(choice_views(choices@) =~= seq![(current@, current@)] + old_views);
}

/// Message shown when no Gemini key is configured.
pub open spec fn missing_key_message() -> Seq<char> {
    "Save a Gemini API key to load the model list."@
}

/// Prefix of the message shown when listing the models failed.
pub open spec fn list_failed_prefix() -> Seq<char> {
    "Could not list Gemini models: "@
}

/// The offered models and list error for a dropdown, given the outcome of
/// listing them: `None` when no key was available (nothing was asked).
pub open spec fn model_choices_spec(
    current: Seq<char>,
    listing: Option<Result<Vec<(String, String)>, String>>,
) -> (Seq<(Seq<char>, Seq<char>)>, Option<Seq<char>>) {
    match listing {
        None => (with_choice(Seq::empty(), current), Some(missing_key_message())),
        Some(Ok(models)) => (with_choice(choice_views(models@), current), None),
        Some(Err(e)) => (with_choice(Seq::empty(), current), Some(list_failed_prefix() + e@)),
    }
}

/// Choices for a model dropdown from the listing outcome, keeping `current` offered.
pub fn gemini_model_choices(
    current: &str,
    listing: Option<Result<Vec<(String, String)>, String>>,
) -> (r: (Vec<(String, String)>, Option<String>))
    ensures
        choice_views(r.0@) == model_choices_spec(current@, listing).0,
        r.1 matches Some(e) ==> model_choices_spec(current@, listing).1 == Some(e@),
        r.1 is None ==> model_choices_spec(current@, listing).1 is None,
{
    let ghost l = listing;
    let (mut choices, err) = match listing {
        None => (Vec::new(), Some(String::from_str("Save a Gemini API key to load the model list."))),
        Some(Ok(models)) => (models, None),
        Some(Err(e)) => {
            let mut msg = String::from_str("Could not list Gemini models: ");
            msg.append(e.as_str());
            (Vec::new(), Some(msg))
        },
    };
    proof {
        if l is None || l matches Some(Err(_)) {
            assert(choice_views(choices@) =~= Seq::empty());
        }
    }
    ensure_choice(&mut choices, current);
    (choices, err)
}

/// Space-joined non-empty messages.
pub open spec fn joined_errors(a: Seq<char>, b: Seq<char>) -> Seq<char> {
    if a.len() == 0 {
        b
    } else if b.len() == 0 {
        a
    } else {
        a + seq![' '] + b
    }
}

/// The preferences page model.
#[derive(Debug, Clone)]
pub struct IntelPreferencesPage {
    pub geocoding_api_key: String,
    pub api_key: String,
    pub title_model: String,
    pub title_model_choices: Vec<(String, String)>,
    pub summary_model: String,
    pub summary_model_choices: Vec<(String, String)>,
    pub embedding_model: String,
    pub embedding_model_choices: Vec<(String, String)>,
    pub error: String,
}

/// The selected model: the stored name as is, or the default when it is blank.
pub open spec fn selected_model(stored: Seq<char>, fallback: Seq<char>) -> Seq<char> {
    if trim(stored).len() == 0 {
        fallback
    } else {
        stored
    }
}

fn selected(stored: &String, fallback: String) -> (r: String)
    ensures
        r@ == selected_model(stored@, fallback@),
{
    if is_blank(stored.as_str()) {
        fallback
    } else {
        stored.clone()
    }
}

fn join_errors(a: String, b: String) -> (r: String)
    ensures
        r@ == joined_errors(a@, b@),
{
    if a.as_str().is_empty() {
        b
    } else if b.as_str().is_empty() {
        a
    } else {
        let mut r = a;
        proof {
            reveal_strlit(" ");
        }
        r.append(" ");
        r.append(b.as_str());
        r
    }
}

/// The preferences page for `prefs`, given the outcome of listing the
/// generate-capable models (`generate_listing`) and the embedding models
/// (`embed_listing`), each `None` when no key was available.
pub fn prefs_page(
    prefs: IntelPreferences,
    error: String,
    generate_listing: Option<Result<Vec<(String, String)>, String>>,
    embed_listing: Option<Result<Vec<(String, String)>, String>>,
) -> (p: IntelPreferencesPage)
    ensures
        p.geocoding_api_key@ == prefs.geocoding_api_key@,
        p.api_key@ == prefs.api_key@,
        p.title_model@ == selected_model(prefs.title_model@, default_generate_model()),
        p.summary_model@ == selected_model(prefs.summary_model@, default_generate_model()),
        p.embedding_model@ == selected_model(prefs.embedding_model@, default_embed_model()),
        choice_views(p.title_model_choices@) == with_choice(
            model_choices_spec(p.title_model@, generate_listing).0,
            p.title_model@,
        ),
        choice_views(p.summary_model_choices@) == with_choice(
            model_choices_spec(p.title_model@, generate_listing).0,
            p.summary_model@,
        ),
        choice_views(p.embedding_model_choices@) == model_choices_spec(
            p.embedding_model@,
            embed_listing,
        ).0,
        p.error@ == joined_errors(
            error@,
            match model_choices_spec(p.title_model@, generate_listing).1 {
                Some(e) => e,
                None => match model_choices_spec(p.embedding_model@, embed_listing).1 {
                    Some(e) => e,
                    None => Seq::empty(),
                },
            },
        ),
{
    let title_model = selected(&prefs.title_model, default_title_model());
    let summary_model = selected(&prefs.summary_model, default_summary_model());
    let embedding_model = selected(&prefs.embedding_model, default_embedding_model());
    let (mut title_model_choices, generate_error) = gemini_model_choices(
        title_model.as_str(),
        generate_listing,
    );
    let mut summary_model_choices = clone_choices(&title_model_choices);
    ensure_choice(&mut summary_model_choices, summary_model.as_str());
    ensure_choice(&mut title_model_choices, title_model.as_str());
    let (embedding_model_choices, embed_error) = gemini_model_choices(
        embedding_model.as_str(),
        embed_listing,
    );
    let list_error = match generate_error {
        Some(e) => e,
        None => match embed_error {
            Some(e) => e,
            None => String::new(),
        },
    };
    IntelPreferencesPage {
        geocoding_api_key: prefs.geocoding_api_key,
        api_key: prefs.api_key,
        title_model,
        title_model_choices,
        summary_model,
        summary_model_choices,
        embedding_model,
        embedding_model_choices,
        error: join_errors(error, list_error),
    }
}

/// A copy of a choice list.
pub fn clone_choices(cs: &Vec<(String, String)>) -> (r: Vec<(String, String)>)
    ensures
        choice_views(r@) == choice_views(cs@),
{
    let mut r: Vec<(String, String)> = Vec::new();
    let mut i: usize = 0;
    while i < cs.len()
        invariant
            i <= cs.len(),
            choice_views(r@) == choice_views(cs@).take(i as int),
        decreases cs.len() - i,
    {
        let a = cs[i].0.clone();
        let b = cs[i].1.clone();
        let ghost before = r@;
        r.push((a, b));
        assert(r@ == before.push((a, b)));
        assert(choice_views(r@) =~= choice_views(before).push((cs@[i as int].0@, cs@[i as int].1@)));
        i = i + 1;
        assert(choice_views(r@) =~= choice_views(cs@).take(i as int));
    }
    assert(choice_views(cs@).take(cs.len() as int) =~= choice_views(cs@));
    r
}

/// Blank stored model names never reach the runtime config: every configured
/// model name is non-empty.
pub proof fn lemma_config_models_nonempty(prefs: IntelPreferences)
    ensures
        model_or_default_spec(prefs.title_model@, default_generate_model()).len() > 0,
        model_or_default_spec(prefs.summary_model@, default_generate_model()).len() > 0,
        model_or_default_spec(prefs.embedding_model@, default_embed_model()).len() > 0,
{
    lemma_default_models_nonempty();
}

/// Keeping a choice is idempotent, and afterwards the choice is offered.
pub proof fn lemma_with_choice_keeps_current(cs: Seq<(Seq<char>, Seq<char>)>, cur: Seq<char>)
    ensures
        cur.len() > 0 ==> has_choice(with_choice(cs, cur), cur),
        with_choice(with_choice(cs, cur), cur) == with_choice(cs, cur),
{
    let w = with_choice(cs, cur);
    if cur.len() > 0 {
        if !has_choice(cs, cur) {
            assert(w[0].0 == cur);
        }
        assert(has_choice(w, cur));
    }
}

/// What is saved is what runs: a model name that went through the defaulting
/// once (when the row was saved) comes out of it unchanged (when the config is
/// read back from the row).
pub proof fn lemma_saved_models_read_back(raw: Seq<char>)
    ensures
        model_or_default_spec(model_or_default_spec(raw, default_generate_model()), default_generate_model())
            == model_or_default_spec(raw, default_generate_model()),
        model_or_default_spec(model_or_default_spec(raw, default_embed_model()), default_embed_model())
            == model_or_default_spec(raw, default_embed_model()),
{
    lemma_default_models_trimmed();
    crate::llm_json::lemma_trim_idempotent(raw);
}

/// The default model names carry no surrounding white space.
proof fn lemma_default_models_trimmed()
    ensures
        trim(default_generate_model()) == default_generate_model(),
        trim(default_embed_model()) == default_embed_model(),
        default_generate_model().len() > 0,
        default_embed_model().len() > 0,
{
    reveal_strlit("gemini-2.0-flash");
    reveal_strlit("gemini-embedding-001");
    let g = default_generate_model();
    let e = default_embed_model();
    assert(g[0] == 'g' && g.last() == 'h');
    assert(e[0] == 'g' && e.last() == '1');
    crate::text::lemma_trim_unpadded(g);
    crate::text::lemma_trim_unpadded(e);
}

/// Whether loading at `now`, having found `found` under id 1, gives `row`
/// and writes (inserts) it exactly when `insert`.
pub open spec fn loaded_row(found: Option<IntelPreferences>, now: i64, row: IntelPreferences, insert: bool) -> bool {
    match found {
        Some(p) => row == p && !insert,
        None => is_new_row(row, now) && insert,
    }
}

/// Loading the singleton row: the row found under id 1 as it is, or, when
/// none is stored, the default row to insert.
pub fn load_preferences_step(found: Option<IntelPreferences>, now: i64) -> (r: (IntelPreferences, bool))
    ensures
        loaded_row(found, now, r.0, r.1),
{
    match found {
        Some(p) => (p, false),
        None => (new_preferences_row(now), true),
    }
}

/// The runtime config at `now`: the config of the loaded row (and the row,
/// with whether it is to be inserted).
pub fn resolved_config_step(found: Option<IntelPreferences>, now: i64) -> (r: (SeerIntelConfig, IntelPreferences, bool))
    ensures
        loaded_row(found, now, r.1, r.2),
        config_of(r.0, r.1),
{
    let (row, insert) = load_preferences_step(found, now);
    let c = config_from_prefs(&row);
    (c, row, insert)
}

/// The row is a singleton: a load that finds the row a first load created
/// gives that same row and writes nothing.
pub proof fn lemma_load_is_stable(now: i64, later: i64, created: IntelPreferences, row: IntelPreferences, insert: bool)
    requires
        loaded_row(None, now, created, true),
        loaded_row(Some(created), later, row, insert),
    ensures
        row == created,
        !insert,
        row.id == 1,
{
}

} // verus!
