use seer::fleet::{
    accepted_node_id, dispatch_step, version_label, ConnectedNode, DispatchAction, DispatchEvent,
    NodeRegistry, NodeVersion,
};
use seer::opensky::client::{
    try_refreshed_cache, cached_token, credentials_present, missing_credentials_message, poll_enabled, refreshed_cache,
    state_text, states_to_store, TokenCache,
};
use seer::opensky::config::SeerOpenskyConfig;
use seer::opensky::preferences::{
    config_from_prefs, empty_prefs, new_preferences_row, preferences_from_form, prefs_page,
    saved_preferences, OpenskyPreferences, PreferencesForm, load_preferences_step as opensky_load,
};

fn v(major: u32) -> Option<NodeVersion> {
    Some(NodeVersion { major, minor: 2, patch: 3 })
}

#[test]
fn registry_lists_nodes_by_id() {
    let mut r = NodeRegistry::new();
    assert_eq!(r.dispatch_target(), None);
    assert_eq!(r.register_node(30, None), Some((1, None)));
    assert_eq!(r.register_node(10, v(1)), Some((2, None)));
    assert_eq!(r.register_node(20, None), Some((3, None)));
    assert_eq!(r.register_node(10, v(2)), Some((4, Some(2))));
    let nodes = r.connected_nodes();
    assert_eq!(
        nodes,
        vec![
            ConnectedNode { id: 10, version: v(2) },
            ConnectedNode { id: 20, version: None },
            ConnectedNode { id: 30, version: None },
        ]
    );
    for _ in 0..20 {
        let t = r.dispatch_target().unwrap();
        assert!(t == 10 || t == 20 || t == 30);
    }
}

#[test]
fn stale_disconnect_keeps_successor() {
    let mut r = NodeRegistry::new();
    let (a, _) = r.register_node(5, v(1)).unwrap();
    let (b, replaced) = r.register_node(5, v(2)).unwrap();
    assert_ne!(a, b);
    assert_eq!(replaced, Some(a));
    assert!(!r.unregister_node(5, a));
    assert!(r.is_connected(5));
    assert_eq!(r.connected_nodes(), vec![ConnectedNode { id: 5, version: v(2) }]);
    assert!(r.unregister_node(5, b));
    assert!(!r.is_connected(5));
    assert!(r.connected_nodes().is_empty());
}

#[test]
fn node_ids_and_versions() {
    assert_eq!(accepted_node_id(Some(0)), None);
    assert_eq!(accepted_node_id(None), None);
    assert_eq!(accepted_node_id(Some(9)), Some(9));
    assert_eq!(version_label(v(1)), "1.2.3");
    assert_eq!(version_label(None), "unknown");
}

#[test]
fn token_cache() {
    let empty = TokenCache::empty(100);
    assert_eq!(cached_token(&empty, 50), None);
    let fresh = refreshed_cache("tok".to_string(), 3600, 1000);
    assert_eq!(fresh.expires_at, 1000 + 3570);
    assert_eq!(cached_token(&fresh, 1000).as_deref(), Some("tok"));
    assert_eq!(cached_token(&fresh, 4570), None);
    let short = refreshed_cache("t".to_string(), 20, 1000);
    assert_eq!(short.expires_at, 1060);
    let cfg = SeerOpenskyConfig { client_id: "id".into(), client_secret: String::new() };
    assert!(!credentials_present(&cfg));
    assert!(poll_enabled(&cfg));
    assert!(!poll_enabled(&SeerOpenskyConfig::default()));
    assert_eq!(missing_credentials_message(), "opensky clientId/secret empty");
    assert_eq!(states_to_store(10), 10);
    assert_eq!(states_to_store(9000), 500);
    assert_eq!(state_text(Some("  AB12 ")).as_deref(), Some("AB12"));
    assert_eq!(state_text(Some("   ")), None);
    assert_eq!(state_text(None), None);
}

#[test]
fn opensky_preferences() {
    let row = new_preferences_row(7);
    assert_eq!((row.id, row.created_at), (1, Some(7)));
    let form = PreferencesForm { client_id: " a ".into(), client_secret: " b ".into() };
    let p = preferences_from_form(&form);
    assert_eq!((p.client_id.as_str(), p.client_secret.as_str()), ("a", "b"));
    let s = saved_preferences(&row, p, 9);
    assert_eq!((s.created_at, s.updated_at, s.client_id.as_str()), (Some(7), Some(9), "a"));
    let c = config_from_prefs(&s);
    assert_eq!(c.client_secret, "b");
    let page = prefs_page(empty_prefs(), "oops".into());
    assert_eq!((page.client_id.as_str(), page.error.as_str()), ("", "oops"));
    let _unused: OpenskyPreferences = empty_prefs();
}

#[test]
fn dispatch_decisions() {
    assert_eq!(dispatch_step(DispatchEvent::NoNode), DispatchAction::WaitAndRetry);
    assert_eq!(dispatch_step(DispatchEvent::Vanished { id: 3 }), DispatchAction::Retry);
    assert_eq!(dispatch_step(DispatchEvent::Picked { id: 3, closed: true }), DispatchAction::Retry);
    assert_eq!(dispatch_step(DispatchEvent::Picked { id: 3, closed: false }), DispatchAction::Send { id: 3 });
    assert_eq!(dispatch_step(DispatchEvent::SendFailed { id: 3 }), DispatchAction::UnregisterAndRetry { id: 3 });
    assert_eq!(dispatch_step(DispatchEvent::ReplyClosed { id: 4 }), DispatchAction::UnregisterAndRetry { id: 4 });
    assert_eq!(dispatch_step(DispatchEvent::Replied), DispatchAction::Return);
}

#[test]
fn checked_token_refresh() {
    let c = try_refreshed_cache("t".to_string(), 3600, 100).unwrap();
    assert_eq!((c.access_token.as_str(), c.expires_at), ("t", 100 + 3570));
    assert_eq!(try_refreshed_cache("t".to_string(), 0, 10).unwrap().expires_at, 70);
    assert!(try_refreshed_cache("t".to_string(), 3600, u64::MAX - 10).is_none());
}

#[test]
fn opensky_preferences_load_creates_once() {
    let (row, insert) = opensky_load(None, 3);
    assert!(insert);
    assert_eq!((row.id, row.client_id.as_str()), (1, ""));
    let (again, ins) = opensky_load(Some(row), 4);
    assert!(!ins);
    assert_eq!(again.created_at, Some(3));
}
