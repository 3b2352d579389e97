use seer::intel::config::{default_embedding_model, default_summary_model, default_title_model, SeerIntelConfig};
use seer::intel::embed::{
    embed_request, similarity_limit, similarity_query, vector_search_unavailable_message, EmbedSetupError,
};
use seer::intel::schema::{embedding_column, postgres_schema_statements, vector_type_available};
use seer::intel::filter::{filter_needs_model, filter_request, passes_content_filter, pattern_match, FilterSetupError};
use seer::intel::generate::{
    event_extract_prompt, event_from_fields, generation_client_params, intel_title_fallback,
    normalize_intel_title, summary_from_model_output, title_from_model_output, GenerateSetupError,
};
use seer::intel::geocode::{geocode_reply_usable, geocode_request_url};
use seer::intel::ingest::{
    enqueue_intel, event_wanted, ingest_needed, intel_kind_label, plan_ingest, upsert_intel_row,
    EnqueueOutcome, IngestChannel, IngestRequest, IntelRow,
};
use seer::intel::kind::{check_loaded_kind, unknown_kind_message, KindRegistry};
use seer::intel::preferences::{
    api_key_from_prefs_or_env, config_from_prefs, empty_prefs, ensure_choice, gemini_model_choices,
    model_or_default, new_preferences_row, preferences_from_form, prefs_page, saved_preferences,
    EnvKeys, IntelPreferences, PreferencesForm, load_preferences_step, resolved_config_step,
};

fn no_env() -> EnvKeys {
    EnvKeys { google: None, gemini: None }
}

fn config_with_key(key: &str) -> SeerIntelConfig {
    let mut c = SeerIntelConfig::default();
    c.api_key = key.to_string();
    c
}

#[test]
fn default_models() {
    assert_eq!(default_title_model(), "gemini-2.0-flash");
    assert_eq!(default_summary_model(), "gemini-2.0-flash");
    assert_eq!(default_embedding_model(), "gemini-embedding-001");
    let c = SeerIntelConfig::default();
    assert_eq!(c.embedding_model, "gemini-embedding-001");
    assert!(c.api_key.is_empty() && c.geocoding_api_key.is_empty());
}

#[test]
fn pattern_match_is_case_insensitive_per_line() {
    assert!(pattern_match("  SPAM \n\n", true, "some spam here"));
    assert!(!pattern_match("\n  \n", true, "anything"));
    assert!(pattern_match("\n  \n", false, "anything"));
    assert!(pattern_match("foo\r\nbar", true, "a BAR b"));
}

#[test]
fn whitelist_and_blacklist_disagree() {
    for (f, c) in [("ukraine", "News from Ukraine"), ("x\ny", "nothing"), ("", "abc")] {
        assert_eq!(pattern_match(f, true, c), !pattern_match(f, false, c));
    }
}

#[test]
fn content_filter_decisions() {
    assert!(!filter_needs_model("  \n "));
    assert!(filter_needs_model("ukraine"));
    assert!(passes_content_filter("  ", true, "x", Some(false)));
    assert!(!passes_content_filter("spam", false, "spam here", Some(false)));
    assert!(passes_content_filter("spam", false, "spam here", Some(true)));
    assert!(!passes_content_filter(" spam ", false, "spam here", None));
    assert!(passes_content_filter("spam", false, "clean", None));
}

#[test]
fn filter_request_checks_key_and_model() {
    let c = SeerIntelConfig::default();
    assert_eq!(filter_request(&c, "f", true, "c", &no_env()).unwrap_err(), FilterSetupError::MissingApiKey);
    assert_eq!(FilterSetupError::MissingApiKey.message(), "missing Gemini API key (Intel preferences or GOOGLE_API_KEY)");
    let mut c2 = config_with_key(" k ");
    c2.summary_model = " models/ ".to_string();
    assert_eq!(filter_request(&c2, "f", true, "c", &no_env()).unwrap_err(), FilterSetupError::EmptyModel);
    assert_eq!(FilterSetupError::EmptyModel.message(), "filter model is empty");
    c2.summary_model = " models/gemini-x ".to_string();
    let r = filter_request(&c2, " crit ", false, "body", &no_env()).unwrap();
    assert_eq!(r.api_key, "k");
    assert_eq!(r.model, "gemini-x");
    assert_eq!(
        r.user_prompt,
        "Filter mode: blacklist \u{2014} discard content that matches the criteria\n\nCriteria:\ncrit\n\nContent:\nbody"
    );
    let env = EnvKeys { google: Some("g".to_string()), gemini: Some("m".to_string()) };
    let r2 = filter_request(&SeerIntelConfig::default(), "f", true, "c", &env).unwrap();
    assert_eq!(r2.api_key, "g");
    assert!(r2.user_prompt.starts_with("Filter mode: whitelist"));
}

#[test]
fn long_content_is_clipped_in_prompt() {
    let c = config_with_key("k");
    let body: String = std::iter::repeat('é').take(13000).collect();
    let r = filter_request(&c, "f", true, &body, &no_env()).unwrap();
    let tail = r.user_prompt.split("Content:\n").nth(1).unwrap();
    assert_eq!(tail.chars().count(), 12000);
}

#[test]
fn title_normalization_edges() {
    assert_eq!(normalize_intel_title("   "), "");
    assert_eq!(normalize_intel_title("'quoted'"), "quoted");
    assert_eq!(normalize_intel_title("a\r\nb"), "a");
    let long: String = std::iter::repeat("abcd ").take(100).collect();
    let t = normalize_intel_title(&long);
    assert_eq!(t.chars().count(), 199);
    assert!(!t.ends_with(' '));
    assert!(t.chars().count() <= 200 && !t.contains('\n'));
}

#[test]
fn title_fallback_defaults_to_intel() {
    assert_eq!(intel_title_fallback(""), "Intel");
    assert_eq!(intel_title_fallback("---\n  \n\"\"\n"), "Intel");
    assert_eq!(title_from_model_output("  \"\"  ", "first line\nsecond"), "first line");
    assert_eq!(title_from_model_output("Model title", "first line"), "Model title");
    assert_eq!(summary_from_model_output("  sum \n"), "sum");
}

#[test]
fn generation_params() {
    assert_eq!(generation_client_params(&SeerIntelConfig::default(), "m", &no_env()).unwrap_err(), GenerateSetupError::MissingApiKey);
    assert_eq!(generation_client_params(&config_with_key("k"), "  ", &no_env()).unwrap_err(), GenerateSetupError::EmptyModel);
    assert_eq!(GenerateSetupError::EmptyModel.message(), "generate model is empty");
    let (k, m) = generation_client_params(&config_with_key("k"), " models/x ", &no_env()).unwrap();
    assert_eq!((k.as_str(), m.as_str()), ("k", "x"));
    let (_, m2) = generation_client_params(&config_with_key("k"), "models/", &no_env()).unwrap();
    assert_eq!(m2, "");
}

#[test]
fn event_prompt_and_fields() {
    assert_eq!(event_extract_prompt("  ", "2026-01-01T00:00:00Z"), None);
    assert_eq!(
        event_extract_prompt(" s ", "NOW").as_deref(),
        Some("Current UTC time: NOW\n\nSummary:\ns")
    );
    let ev = event_from_fields(" Kyiv, Ukraine ", " 2026-08-26T00:00:00Z ").unwrap();
    assert_eq!(ev.address, "Kyiv, Ukraine");
    assert_eq!(ev.timestamp, 1787702400);
    assert_eq!(ev.nanos, 0);
    let ev2 = event_from_fields("", "2026-08-26T02:00:00+02:00").unwrap();
    assert_eq!(ev2.timestamp, 1787702400);
    let e = event_from_fields("x", "yesterday").unwrap_err();
    assert!(e.starts_with("event extract datetime: "));
}

#[test]
fn geocode_requests() {
    let mut c = SeerIntelConfig::default();
    assert_eq!(geocode_request_url(&c, "Kyiv"), None);
    c.geocoding_api_key = " KEY ".to_string();
    assert_eq!(geocode_request_url(&c, "  "), None);
    assert_eq!(
        geocode_request_url(&c, " Kyiv, Ukraine ").as_deref(),
        Some("https://maps.googleapis.com/maps/api/geocode/json?address=Kyiv%2C+Ukraine&key=KEY")
    );
    assert!(geocode_reply_usable("OK", 1));
    assert!(!geocode_reply_usable("OK", 0));
    assert!(!geocode_reply_usable("ZERO_RESULTS", 1));
}

#[test]
fn embed_requests() {
    let mut c = config_with_key("k");
    assert_eq!(embed_request(&c, "  ", &no_env()).unwrap_err(), EmbedSetupError::EmptyText);
    assert_eq!(embed_request(&SeerIntelConfig::default(), "t", &no_env()).unwrap_err(), EmbedSetupError::MissingApiKey);
    c.embedding_model = " ".to_string();
    assert_eq!(embed_request(&c, "t", &no_env()).unwrap_err(), EmbedSetupError::EmptyModel);
    assert_eq!(EmbedSetupError::EmptyModel.message(), "embeddingModel is empty");
    c.embedding_model = "gemini-embedding-001".to_string();
    let r = embed_request(&c, " text ", &no_env()).unwrap();
    assert_eq!(r.text, "text");
    assert_eq!(r.url, "https://generativelanguage.googleapis.com/v1beta/models/gemini-embedding-001:embedContent?key=k");
    c.embedding_model = "models/e".to_string();
    assert_eq!(embed_request(&c, "t", &no_env()).unwrap().url, "https://generativelanguage.googleapis.com/v1beta/models/e:embedContent?key=k");
    assert_eq!(similarity_limit(0), 10);
    assert_eq!(similarity_limit(5), 5);
    assert_eq!(similarity_limit(1000), 100);
}

fn prefs(title: &str, key: &str) -> IntelPreferences {
    IntelPreferences {
        id: 1,
        created_at: Some(5),
        updated_at: Some(5),
        geocoding_api_key: "geo".to_string(),
        title_model: title.to_string(),
        summary_model: "  ".to_string(),
        embedding_model: " e1 ".to_string(),
        api_key: key.to_string(),
    }
}

#[test]
fn preferences_to_config() {
    let c = config_from_prefs(&prefs("", "k"));
    assert_eq!(c.title_model, "gemini-2.0-flash");
    assert_eq!(c.summary_model, "gemini-2.0-flash");
    assert_eq!(c.embedding_model, "e1");
    assert_eq!(c.api_key, "k");
    assert_eq!(model_or_default("  x ", "d"), "x");
    assert_eq!(model_or_default("\t", "d"), "d");
}

#[test]
fn api_key_falls_back_to_environment() {
    let both = EnvKeys { google: Some("g".to_string()), gemini: Some("m".to_string()) };
    let gem = EnvKeys { google: None, gemini: Some("m".to_string()) };
    assert_eq!(api_key_from_prefs_or_env(" p ", &both), "p");
    assert_eq!(api_key_from_prefs_or_env("  ", &both), "g");
    assert_eq!(api_key_from_prefs_or_env("", &gem), "m");
    assert_eq!(api_key_from_prefs_or_env("", &no_env()), "");
}

#[test]
fn preferences_rows() {
    let row = new_preferences_row(42);
    assert_eq!((row.id, row.created_at, row.updated_at), (1, Some(42), Some(42)));
    assert_eq!(row.title_model, "gemini-2.0-flash");
    let saved = saved_preferences(&row, prefs(" ", "k"), 50);
    assert_eq!((saved.id, saved.created_at, saved.updated_at), (1, Some(42), Some(50)));
    assert_eq!(saved.title_model, "gemini-2.0-flash");
    assert_eq!(saved.embedding_model, "e1");
    let form = PreferencesForm {
        geocoding_api_key: " g ".to_string(),
        api_key: " k ".to_string(),
        title_model: " t ".to_string(),
        summary_model: "s".to_string(),
        embedding_model: "".to_string(),
    };
    let p = preferences_from_form(&form);
    assert_eq!((p.geocoding_api_key.as_str(), p.api_key.as_str(), p.title_model.as_str()), ("g", "k", "t"));
    assert_eq!(p.created_at, None);
    let e = empty_prefs();
    assert_eq!(e.embedding_model, "gemini-embedding-001");
}

#[test]
fn choices_keep_current_selection() {
    let mut cs = vec![("a".to_string(), "A".to_string())];
    ensure_choice(&mut cs, "b");
    assert_eq!(cs[0], ("b".to_string(), "b".to_string()));
    ensure_choice(&mut cs, "a");
    ensure_choice(&mut cs, "");
    assert_eq!(cs.len(), 2);
    let (c1, e1) = gemini_model_choices("x", Some(Ok(vec![("x".to_string(), "X".to_string())])));
    assert_eq!(c1, vec![("x".to_string(), "X".to_string())]);
    assert_eq!(e1, None);
    let (c2, e2) = gemini_model_choices("x", Some(Err("boom".to_string())));
    assert_eq!(c2, vec![("x".to_string(), "x".to_string())]);
    assert_eq!(e2.as_deref(), Some("Could not list Gemini models: boom"));
}

#[test]
fn preferences_page_model() {
    let listed = vec![("m1".to_string(), "M1".to_string())];
    let page = prefs_page(prefs("", ""), "saved?".to_string(), None, Some(Ok(listed)));
    assert_eq!(page.title_model, "gemini-2.0-flash");
    assert_eq!(page.summary_model, "gemini-2.0-flash");
    assert_eq!(page.embedding_model, " e1 ");
    assert_eq!(page.title_model_choices, vec![("gemini-2.0-flash".to_string(), "gemini-2.0-flash".to_string())]);
    assert_eq!(page.embedding_model_choices.len(), 2);
    assert_eq!(page.error, "saved? Save a Gemini API key to load the model list.");
    let page2 = prefs_page(prefs("t", "k"), String::new(), Some(Ok(vec![])), Some(Err("x".to_string())));
    assert_eq!(page2.error, "Could not list Gemini models: x");
    assert_eq!(page2.summary_model_choices.len(), 2);
}

#[test]
fn ingest_decisions() {
    let req = IngestRequest { kind: "reddit".to_string(), intel_id: 9, content: " body ".to_string() };
    assert!(ingest_needed(&req));
    assert!(!ingest_needed(&IngestRequest { kind: "k".to_string(), intel_id: 1, content: " \n".to_string() }));
    let new_row = upsert_intel_row(None, &req, "t".to_string(), "s".to_string(), None, 77);
    assert_eq!((new_row.id, new_row.kind.as_str(), new_row.kind_id, new_row.created_at), (0, "reddit", 9, Some(77)));
    let existing = IntelRow { id: 3, created_at: Some(1), updated_at: Some(1), title: "o".into(), summary: "o".into(), datetime: 1, embedding: None, kind: "reddit".into(), kind_id: 9 };
    let upd = upsert_intel_row(Some(existing), &req, "t2".to_string(), "s2".to_string(), Some("[1]".to_string()), 80);
    assert_eq!((upd.id, upd.created_at, upd.updated_at, upd.datetime), (3, Some(1), Some(80), 80));
    assert_eq!(upd.embedding.as_deref(), Some("[1]"));
    assert_eq!(intel_kind_label("reddit", 12), "reddit#12");
}

#[test]
fn enqueue_goes_through_the_channel() {
    let req = IngestRequest { kind: "k".to_string(), intel_id: 1, content: "c".to_string() };
    let mut none: Option<IngestChannel> = None;
    assert_eq!(enqueue_intel(&mut none, req.clone()), EnqueueOutcome::NotReady);
    assert!(none.is_none());
    let (tx, mut rx) = tokio::sync::mpsc::channel::<IngestRequest>(1);
    let mut slot = Some(IngestChannel::new(tx));
    assert_eq!(enqueue_intel(&mut slot, req.clone()), EnqueueOutcome::Queued);
    assert_eq!(enqueue_intel(&mut slot, req.clone()), EnqueueOutcome::Full);
    assert_eq!(rx.try_recv().unwrap().intel_id, 1);
    drop(rx);
    assert_eq!(enqueue_intel(&mut slot, req), EnqueueOutcome::Closed);
    assert!(slot.is_some());
}

#[test]
fn kind_registry_lists_sorted_unique() {
    let mut r = KindRegistry::new();
    r.register_intel_kind("website");
    r.register_intel_kind("reddit");
    r.register_intel_kind("website");
    r.register_intel_kind("Zeta");
    assert!(r.contains("reddit"));
    assert!(!r.contains("twitter"));
    assert_eq!(r.list_intel_kinds(), vec!["Zeta".to_string(), "reddit".to_string(), "website".to_string()]);
    assert_eq!(unknown_kind_message("x"), "unknown intel kind x");
    assert!(check_loaded_kind("a", "a").is_ok());
    assert_eq!(check_loaded_kind("a", "b").unwrap_err(), "kind mismatch: registry a, instance b");
}

#[test]
fn similarity_query_clamps_limit() {
    assert_eq!(
        similarity_query("[0.5,1]", 0),
        "SELECT id FROM seer_intels WHERE embedding IS NOT NULL ORDER BY embedding <=> '[0.5,1]'::vector ASC LIMIT 10"
    );
    assert!(similarity_query("[1]", 250).ends_with("ASC LIMIT 100"));
    assert!(similarity_query("[1]", 37).ends_with("ASC LIMIT 37"));
    assert_eq!(vector_search_unavailable_message(), "vector search requires postgres");
}

#[test]
fn schema_embedding_column_follows_pgvector() {
    assert!(vector_type_available(Some(1)));
    assert!(!vector_type_available(Some(0)));
    assert!(!vector_type_available(None));
    assert_eq!(embedding_column(true), "embedding vector(3072)");
    assert_eq!(embedding_column(false), "embedding TEXT");
    let with = postgres_schema_statements(true);
    let without = postgres_schema_statements(false);
    assert_eq!(with.len(), 4);
    assert!(with[0].contains("  embedding vector(3072),\n  kind TEXT"));
    assert!(without[0].contains("  embedding TEXT,\n  kind TEXT"));
    assert!(with[0].starts_with("\nCREATE TABLE IF NOT EXISTS seer_intels ("));
    assert_eq!(with[1], "CREATE INDEX IF NOT EXISTS idx_seer_intels_kind ON seer_intels (kind)");
    assert_eq!(with[2], "CREATE INDEX IF NOT EXISTS idx_seer_intels_kind_id ON seer_intels (kind_id)");
    assert!(with[3].contains("intel_id BIGINT NOT NULL UNIQUE"));
    assert_eq!(with[3], without[3]);
    for stmt in with.iter().chain(without.iter()) {
        assert!(!stmt.contains("CREATE EXTENSION"));
    }
}

#[test]
fn saved_models_read_back_unchanged() {
    let row = new_preferences_row(1);
    let form = PreferencesForm {
        geocoding_api_key: String::new(),
        api_key: String::new(),
        title_model: "  ".to_string(),
        summary_model: " flash-x ".to_string(),
        embedding_model: String::new(),
    };
    let saved = saved_preferences(&row, preferences_from_form(&form), 2);
    let cfg = config_from_prefs(&saved);
    assert_eq!(cfg.title_model, saved.title_model);
    assert_eq!(cfg.summary_model, "flash-x");
    assert_eq!(cfg.summary_model, saved.summary_model);
    assert_eq!(cfg.embedding_model, "gemini-embedding-001");
    let again = saved_preferences(&saved, saved.clone(), 3);
    assert_eq!(again.title_model, saved.title_model);
    assert_eq!(again.embedding_model, saved.embedding_model);
}

#[test]
fn ingest_plan_updates_or_inserts() {
    let req = IngestRequest { kind: "reddit".to_string(), intel_id: 4, content: "c".to_string() };
    let p = plan_ingest(None, &req, "T".to_string(), "S".to_string(), Err("no key".to_string()), 10);
    assert!(p.insert);
    assert_eq!((p.row.id, p.row.kind.as_str(), p.row.kind_id, p.row.embedding.clone()), (0, "reddit", 4, None));
    let stored = IntelRow { id: 8, created_at: Some(1), ..p.row.clone() };
    let q = plan_ingest(Some(stored), &req, "T2".to_string(), "S2".to_string(), Ok("[1]".to_string()), 11);
    assert!(!q.insert);
    assert_eq!((q.row.id, q.row.created_at, q.row.updated_at), (8, Some(1), Some(11)));
    assert_eq!(q.row.embedding.as_deref(), Some("[1]"));
    assert_eq!(q.row.title, "T2");
    assert!(event_wanted(false));
    assert!(!event_wanted(true));
}

#[test]
fn preferences_load_creates_once() {
    let (row, insert) = load_preferences_step(None, 7);
    assert!(insert);
    assert_eq!((row.id, row.created_at, row.title_model.as_str()), (1, Some(7), "gemini-2.0-flash"));
    let (again, insert2) = load_preferences_step(Some(row.clone()), 9);
    assert!(!insert2);
    assert_eq!((again.id, again.created_at), (1, Some(7)));
    let (cfg, _, ins) = resolved_config_step(Some(row), 9);
    assert!(!ins);
    assert_eq!(cfg.embedding_model, "gemini-embedding-001");
}
