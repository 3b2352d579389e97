//! Singleton OpenSky preferences: stored row, form, runtime config and page.
use vstd::prelude::*;
use crate::text::{trim, trim_str};
use crate::opensky::config::SeerOpenskyConfig;

verus! {

/// The stored preferences row (`id = 1`); timestamps are Unix seconds.
#[derive(Debug, Clone)]
pub struct OpenskyPreferences {
    pub id: i64,
    pub created_at: Option<i64>,
    pub updated_at: Option<i64>,
    pub client_id: String,
    pub client_secret: String,
}

/// The submitted preferences form.
#[derive(Debug, Clone)]
pub struct PreferencesForm {
    pub client_id: String,
    pub client_secret: String,
}

/// The preferences page model.
#[derive(Debug, Clone)]
pub struct OpenskyPreferencesPage {
    pub client_id: String,
    pub client_secret: String,
    pub error: String,
}

/// Whether `c` is the runtime config of the row `prefs`.
pub open spec fn config_of(c: SeerOpenskyConfig, prefs: OpenskyPreferences) -> bool {
    c.client_id@ == prefs.client_id@ && c.client_secret@ == prefs.client_secret@
}

/// Runtime config: the stored credentials as they are.
pub fn config_from_prefs(prefs: &OpenskyPreferences) -> (c: SeerOpenskyConfig)
    ensures
        config_of(c, *prefs),
{
    SeerOpenskyConfig { client_id: prefs.client_id.clone(), client_secret: prefs.client_secret.clone() }
}

/// Whether `p` is the row created at `now` when none is stored.
pub open spec fn is_new_row(p: OpenskyPreferences, now: i64) -> bool {
    &&& p.id == 1
    &&& p.created_at == Some(now)
    &&& p.updated_at == Some(now)
    &&& p.client_id@ == Seq::<char>::empty()
    &&& p.client_secret@ == Seq::<char>::empty()
}

/// The row created when none is stored yet, stamped `now`.
pub fn new_preferences_row(now: i64) -> (p: OpenskyPreferences)
    ensures
        is_new_row(p, now),
{
    OpenskyPreferences {
        id: 1,
        created_at: Some(now),
        updated_at: Some(now),
        client_id: String::new(),
        client_secret: String::new(),
    }
}

/// The stored row after saving `prefs` onto `existing` at time `now`.
pub fn saved_preferences(existing: &OpenskyPreferences, prefs: OpenskyPreferences, now: i64) -> (p:
    OpenskyPreferences)
    ensures
        p.id == existing.id,
        p.created_at == existing.created_at,
        p.updated_at == Some(now),
        p.client_id@ == prefs.client_id@,
        p.client_secret@ == prefs.client_secret@,
{
    OpenskyPreferences {
        id: existing.id,
        created_at: existing.created_at,
        updated_at: Some(now),
        client_id: prefs.client_id,
        client_secret: prefs.client_secret,
    }
}

/// The preferences submitted by the form: both fields trimmed, no timestamps.
pub fn preferences_from_form(form: &PreferencesForm) -> (p: OpenskyPreferences)
    ensures
        p.id == 1,
        p.created_at is None,
        p.updated_at is None,
        p.client_id@ == trim(form.client_id@),
        p.client_secret@ == trim(form.client_secret@),
{
    OpenskyPreferences {
        id: 1,
        created_at: None,
        updated_at: None,
        client_id: trim_str(form.client_id.as_str()),
        client_secret: trim_str(form.client_secret.as_str()),
    }
}

/// The row shown when loading failed: no credentials.
pub fn empty_prefs() -> (p: OpenskyPreferences)
    ensures
        p.id == 1,
        p.created_at is None,
        p.updated_at is None,
        p.client_id@ == Seq::<char>::empty(),
        p.client_secret@ == Seq::<char>::empty(),
{
    OpenskyPreferences {
        id: 1,
        created_at: None,
        updated_at: None,
        client_id: String::new(),
        client_secret: String::new(),
    }
}

/// The page for `prefs` with an error line.
pub fn prefs_page(prefs: OpenskyPreferences, error: String) -> (p: OpenskyPreferencesPage)
    ensures
        p.client_id@ == prefs.client_id@,
        p.client_secret@ == prefs.client_secret@,
        p.error@ == error@,
{
    OpenskyPreferencesPage { client_id: prefs.client_id, client_secret: prefs.client_secret, error }
}

/// Whether loading at `now`, having found `found` under id 1, gives `row`
/// and writes (inserts) it exactly when `insert`.
pub open spec fn loaded_row(found: Option<OpenskyPreferences>, now: i64, row: OpenskyPreferences, insert: bool) -> bool {
    match found {
        Some(p) => row == p && !insert,
        None => is_new_row(row, now) && insert,
    }
}

/// Loading the singleton row: the row found under id 1 as it is, or, when
/// none is stored, the default row to insert.
pub fn load_preferences_step(found: Option<OpenskyPreferences>, now: i64) -> (r: (OpenskyPreferences, bool))
    ensures
        loaded_row(found, now, r.0, r.1),
{
    match found {
        Some(p) => (p, false),
        None => (new_preferences_row(now), true),
    }
}

/// The runtime config at `now`: the config of the loaded row (and the row,
/// with whether it is to be inserted).
pub fn resolved_config_step(found: Option<OpenskyPreferences>, now: i64) -> (r: (SeerOpenskyConfig, OpenskyPreferences, bool))
    ensures
        loaded_row(found, now, r.1, r.2),
        config_of(r.0, r.1),
{
    let (row, insert) = load_preferences_step(found, now);
    let c = config_from_prefs(&row);
    (c, row, insert)
}

/// The row is a singleton: a load that finds the row a first load created
/// gives that same row and writes nothing.
pub proof fn lemma_load_is_stable(now: i64, later: i64, created: OpenskyPreferences, row: OpenskyPreferences, insert: bool)
    requires
        loaded_row(None, now, created, true),
        loaded_row(Some(created), later, row, insert),
    ensures
        row == created,
        !insert,
        row.id == 1,
{
}

} // verus!
