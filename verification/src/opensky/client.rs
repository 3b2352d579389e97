//! OAuth token cache decisions and the per-pass state limit of the poller.
use vstd::prelude::*;
use crate::opensky::config::SeerOpenskyConfig;
use crate::text::{trim, trim_str};

verus! {

/// Seconds a token is kept back from its announced lifetime.
pub const TOKEN_EXPIRY_MARGIN_SECS: u64 = 30;

/// Shortest time a fetched token is kept.
pub const TOKEN_MIN_LIFETIME_SECS: u64 = 60;

/// Most states stored per poll.
pub const POLL_MAX_STATES: usize = 500;

/// The cached access token and when it stops being used (monotonic seconds).
#[derive(Debug, Clone)]
pub struct TokenCache {
    pub access_token: String,
    pub expires_at: u64,
}

impl TokenCache {
    /// An empty cache, expiring at `now`.
    pub fn empty(now: u64) -> (c: Self)
        ensures
            c.access_token@ == Seq::<char>::empty(),
            c.expires_at == now,
    {
        TokenCache { access_token: String::new(), expires_at: now }
    }
}

/// Whether the cached token may be used at time `now`.
pub open spec fn token_usable(c: TokenCache, now: u64) -> bool {
    c.access_token@.len() > 0 && c.expires_at > now
}

/// The cached token when it is usable at `now`.
pub fn cached_token(c: &TokenCache, now: u64) -> (r: Option<String>)
    ensures
        r is Some <==> token_usable(*c, now),
        r matches Some(t) ==> t@ == c.access_token@,
{
    if !c.access_token.as_str().is_empty() && c.expires_at > now {
        Some(c.access_token.clone())
    } else {
        None
    }
}

/// How long a token announced to live `expires_in` seconds is kept.
pub open spec fn kept_lifetime(expires_in: u64) -> u64 {
    let s = if expires_in >= TOKEN_EXPIRY_MARGIN_SECS {
        (expires_in - TOKEN_EXPIRY_MARGIN_SECS) as u64
    } else {
        0u64
    };
    if s >= TOKEN_MIN_LIFETIME_SECS {
        s
    } else {
        TOKEN_MIN_LIFETIME_SECS
    }
}

/// The cache after a token was fetched at `now`.
pub fn refreshed_cache(access_token: String, expires_in: u64, now: u64) -> (c: TokenCache)
    requires
        now + kept_lifetime(expires_in) <= u64::MAX,
    ensures
        c.access_token@ == access_token@,
        c.expires_at == now + kept_lifetime(expires_in),
{
    let life = expires_in.saturating_sub(TOKEN_EXPIRY_MARGIN_SECS);
    let life = if life >= TOKEN_MIN_LIFETIME_SECS {
        life
    } else {
        TOKEN_MIN_LIFETIME_SECS
    };
    TokenCache { access_token, expires_at: now + life }
}

/// The cache after a token was fetched at `now`, or `None` when its expiry
/// would pass the clock's range.
pub fn try_refreshed_cache(access_token: String, expires_in: u64, now: u64) -> (r: Option<TokenCache>)
    ensures
        r is None <==> now + kept_lifetime(expires_in) > u64::MAX,
        r matches Some(c) ==> c.access_token@ == access_token@ && c.expires_at == now + kept_lifetime(
            expires_in,
        ),
{
    let life = expires_in.saturating_sub(TOKEN_EXPIRY_MARGIN_SECS);
    let life = if life >= TOKEN_MIN_LIFETIME_SECS {
        life
    } else {
        TOKEN_MIN_LIFETIME_SECS
    };
    if now > u64::MAX - life {
        return None;
    }
    Some(refreshed_cache(access_token, expires_in, now))
}

/// Whether a token may be requested: both credentials must be set.
pub fn credentials_present(cfg: &SeerOpenskyConfig) -> (b: bool)
    ensures
        b == (cfg.client_id@.len() > 0 && cfg.client_secret@.len() > 0),
{
    !cfg.client_id.as_str().is_empty() && !cfg.client_secret.as_str().is_empty()
}

/// Message when the credentials are missing.
pub fn missing_credentials_message() -> (r: String)
    ensures
        r@ == "opensky clientId/secret empty"@,
{
    String::from_str("opensky clientId/secret empty")
}

/// Whether a poll pass runs: only with a client id configured.
pub fn poll_enabled(cfg: &SeerOpenskyConfig) -> (b: bool)
    ensures
        b == (cfg.client_id@.len() > 0),
{
    !cfg.client_id.as_str().is_empty()
}

/// How many of `available` states a poll pass stores.
pub fn states_to_store(available: usize) -> (n: usize)
    ensures
        n == if available <= POLL_MAX_STATES { available } else { POLL_MAX_STATES },
{
    if available <= POLL_MAX_STATES {
        available
    } else {
        POLL_MAX_STATES
    }
}

/// A text cell of a state vector: trimmed, and absent when blank.
pub fn state_text(raw: Option<&str>) -> (r: Option<String>)
    ensures
        raw is None ==> r is None,
        raw matches Some(s) ==> (trim(s@).len() == 0 <==> r is None),
        raw matches Some(s) ==> (r matches Some(t) ==> t@ == trim(s@)),
{
    match raw {
        None => None,
        Some(s) => {
            let t = trim_str(s);
            if t.as_str().is_empty() {
                None
            } else {
                Some(t)
            }
        },
    }
}

/// A token fetched at `now` is reused for at least a minute and never after
/// its kept lifetime.
pub proof fn lemma_fresh_token_reused(token: TokenCache, expires_in: u64, now: u64, t: u64)
    requires
        token.access_token@.len() > 0,
        now + kept_lifetime(expires_in) <= u64::MAX,
        token.expires_at == now + kept_lifetime(expires_in),
    ensures
        now <= t < now + TOKEN_MIN_LIFETIME_SECS ==> token_usable(token, t),
        t >= now + kept_lifetime(expires_in) ==> !token_usable(token, t),
{
}

} // verus!
