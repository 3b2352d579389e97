use seer::intel::filter::{passes_content_filter, pattern_match};
use seer::intel::preferences::{api_key_from_prefs_or_env, gemini_model_choices, EnvKeys};
use seer::intel::generate::{intel_title_fallback, normalize_intel_title};
use seer::reddit::names::{normalize_string_list, normalize_subreddit};

#[test]
fn pattern_blacklist_blocks_match() {
    assert!(!pattern_match("spam\nnoise", false, "This is spam content"));
}

#[test]
fn pattern_whitelist_requires_match() {
    assert!(pattern_match("ukraine", true, "News from Ukraine"));
    assert!(!pattern_match("ukraine", true, "News from Poland"));
}

#[test]
fn normalize_strips_quotes_and_newlines() {
    assert_eq!(
        normalize_intel_title("  \"Hello world\"\nmore "),
        "Hello world"
    );
}

#[test]
fn title_fallback_uses_first_nonempty_line() {
    assert_eq!(
        intel_title_fallback("\n---\nr/news: Something happened\n\nbody"),
        "r/news: Something happened"
    );
}

#[test]
fn strips_prefixes_and_whitespace() {
    assert_eq!(normalize_subreddit("  r/rust  "), "rust");
    assert_eq!(normalize_subreddit("/r/rust"), "rust");
    assert_eq!(normalize_subreddit("R/AskReddit"), "AskReddit");
    assert_eq!(normalize_subreddit("r/ r/foo"), "foo");
    assert_eq!(normalize_subreddit("rust"), "rust");
    assert_eq!(
        normalize_string_list(&[
            "  r/a ".into(),
            "".into(),
            "/r/b".into(),
            "   ".into()
        ]),
        vec!["a".to_string(), "b".to_string()]
    );
}

#[test]
fn empty_filter_passes() {
    assert!(passes_content_filter("", false, "anything", None));
}

#[test]
fn empty_api_key_does_not_list_models() {
    // No key in the preferences and none in the environment: nothing is listed.
    let key = api_key_from_prefs_or_env("", &EnvKeys { google: None, gemini: None });
    assert!(key.is_empty());
    let (choices, err) = gemini_model_choices("gemini-2.0-flash", None);
    assert_eq!(
        choices,
        vec![("gemini-2.0-flash".to_string(), "gemini-2.0-flash".to_string())]
    );
    assert!(
        err.as_deref()
            .is_some_and(|e| e.contains("Save a Gemini API key")),
        "{err:?}"
    );
}
