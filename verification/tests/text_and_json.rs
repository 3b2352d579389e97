use seer::llm_json::{extract_first_json_object, json_candidates, strip_json_fence, truncate_chars};
use seer::text::{i64_to_string, trim_str};
use seer::reddit::fetch::feed_url;
use seer::urlenc::urlencoding_encode;

#[test]
fn trim_uses_unicode_white_space() {
    assert_eq!(trim_str("\u{3000}\t abc \u{a0}\n"), "abc");
    assert_eq!(trim_str("   "), "");
    assert_eq!(trim_str("a b"), "a b");
}

#[test]
fn i64_to_string_matches_display() {
    for n in [0i64, 7, -7, 10, 1234567890, i64::MIN, i64::MAX] {
        assert_eq!(i64_to_string(n), n.to_string());
    }
}

#[test]
fn fence_is_stripped() {
    assert_eq!(strip_json_fence("```json\n{\"a\":1}\n```"), "{\"a\":1}");
    assert_eq!(strip_json_fence("```JSON\r\n{}\r\n```"), "{}");
    assert_eq!(strip_json_fence("```\n[1]\n```"), "[1]");
    assert_eq!(strip_json_fence("  plain  "), "plain");
    assert_eq!(strip_json_fence("```{\"x\":2}"), "{\"x\":2}");
}

#[test]
fn first_object_spans_outer_braces() {
    assert_eq!(
        extract_first_json_object("Here you go: {\"a\":{\"b\":1}} thanks").as_deref(),
        Some("{\"a\":{\"b\":1}}")
    );
    assert_eq!(extract_first_json_object("} before {"), None);
    assert_eq!(extract_first_json_object("no braces"), None);
    assert_eq!(extract_first_json_object("{").as_deref(), None);
}

#[test]
fn truncation_counts_characters() {
    assert_eq!(truncate_chars("héllo", 2), "hé");
    assert_eq!(truncate_chars("abc", 3), "abc");
    assert_eq!(truncate_chars("abc", 0), "");
}

#[test]
fn candidates_are_tried_in_order() {
    let c = json_candidates("Here you go:\n```json\n{\"address\":\"Kyiv\"}\n```\n");
    assert_eq!(c.len(), 3);
    assert_eq!(c[0], "Here you go:\n```json\n{\"address\":\"Kyiv\"}\n```");
    assert_eq!(c[1], "Here you go:\n```json\n{\"address\":\"Kyiv\"}\n```");
    assert_eq!(c[2], "{\"address\":\"Kyiv\"}");
    let d = json_candidates("   ");
    assert_eq!(d, vec![String::new(), String::new()]);
}

#[test]
fn geocoding_encoder_keeps_tilde() {
    assert_eq!(urlencoding_encode("Kyiv, Ukraine"), "Kyiv%2C+Ukraine");
    assert_eq!(urlencoding_encode("a~b*c"), "a~b%2Ac");
    assert_eq!(urlencoding_encode("é"), "%C3%A9");
}

#[test]
fn form_encoder_keeps_star() {
    assert_eq!(
        feed_url("news", "a~b*c d"),
        "https://www.reddit.com/r/news/search.rss?q=a%7Eb*c+d&restrict_sr=1&sort=new"
    );
    assert!(feed_url("news", "war & peace").contains("?q=war+%26+peace&"));
}

/// Decodes model output the way the ingest code does: the first candidate
/// text that is an object with a boolean `pass` (and a string `reason`, if any).
fn decode_filter(raw: &str) -> Result<(bool, String), String> {
    for c in json_candidates(raw) {
        let Ok(v) = serde_json::from_str::<serde_json::Value>(&c) else { continue };
        let Some(obj) = v.as_object() else { continue };
        let Some(pass) = obj.get("pass").and_then(|p| p.as_bool()) else { continue };
        let reason = match obj.get("reason") {
            None => String::new(),
            Some(r) => match r.as_str() {
                Some(s) => s.to_string(),
                None => continue,
            },
        };
        return Ok((pass, reason));
    }
    Err(format!("filter json: expected object, got {:?}", truncate_chars(&trim_str(raw), 120)))
}

/// The event decoding: an object with a string `datetime` (and a string `address`, if any).
fn decode_event(raw: &str) -> Result<(String, String), String> {
    for c in json_candidates(raw) {
        let Ok(v) = serde_json::from_str::<serde_json::Value>(&c) else { continue };
        let Some(obj) = v.as_object() else { continue };
        let Some(dt) = obj.get("datetime").and_then(|d| d.as_str()) else { continue };
        let address = match obj.get("address") {
            None => String::new(),
            Some(a) => match a.as_str() {
                Some(s) => s.to_string(),
                None => continue,
            },
        };
        return Ok((address, dt.to_string()));
    }
    Err(format!("event extract json: expected object, got {:?}", truncate_chars(&trim_str(raw), 120)))
}

#[test]
fn parse_filter_json_accepts_fenced() {
    let out = decode_filter("```json\n{\"pass\":true,\"reason\":\"matches criteria\"}\n```").unwrap();
    assert!(out.0);
    assert_eq!(out.1, "matches criteria");
}

#[test]
fn parse_event_json_accepts_fenced_and_prose() {
    let out = decode_event(
        "Here you go:\n```json\n{\"address\":\"Kyiv, Ukraine\",\"datetime\":\"2026-08-26T00:00:00Z\"}\n```\n",
    )
    .unwrap();
    assert_eq!(out.0, "Kyiv, Ukraine");
    assert_eq!(out.1, "2026-08-26T00:00:00Z");
}

#[test]
fn parse_event_json_rejects_empty() {
    assert!(decode_event("").is_err());
    assert!(decode_event("   ").is_err());
}
