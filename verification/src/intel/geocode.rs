//! Google Geocoding requests for intel events.
use vstd::prelude::*;
use vstd::string::StringSliceAdditionalSpecFns;
use crate::text::{trim, trim_str};
use crate::urlenc::{url_encoded, urlencoding_encode, Unreserved};
use crate::intel::config::SeerIntelConfig;

verus! {

/// The request URL for `address`: both the key and the address trimmed, the
/// address query-encoded; no request without a key or an address.
pub open spec fn geocode_url(key: Seq<char>, address: Seq<char>) -> Option<Seq<char>> {
    if trim(key).len() == 0 || trim(address).len() == 0 {
        None
    } else {
        Some(
            "https://maps.googleapis.com/maps/api/geocode/json?address="@ + url_encoded(
                Unreserved::Tilde,
                vstd::utf8::encode_utf8(trim(address)),
            ) + "&key="@ + trim(key),
        )
    }
}

/// The geocoding request for `address`, or `None` when the key or the address is blank.
pub fn geocode_request_url(config: &SeerIntelConfig, address: &str) -> (r: Option<String>)
    ensures
        r matches Some(u) ==> geocode_url(config.geocoding_api_key@, address@) == Some(u@),
        r is None ==> geocode_url(config.geocoding_api_key@, address@) is None,
{
    let key = trim_str(config.geocoding_api_key.as_str());
    let addr = trim_str(address);
    if key.as_str().is_empty() || addr.as_str().is_empty() {
        return None;
    }
    let enc = urlencoding_encode(addr.as_str());
    let mut url = String::from_str("https://maps.googleapis.com/maps/api/geocode/json?address=");
    url.append(enc.as_str());
    url.append("&key=");
    url.append(key.as_str());
    Some(url)
}

/// Whether a geocoding reply can be used: status `OK` and at least one result.
pub fn geocode_reply_usable(status: &str, results: usize) -> (b: bool)
    ensures
        b == (status@ == "OK"@ && results > 0),
{
    let s = crate::text::chars_of(status);
    let ok: Vec<char> = vec!['O', 'K'];
    proof {
        reveal_strlit("OK");
        assert("OK"@ =~= ok@);
    }
    crate::intel::kind::vec_eq(&s, &ok) && results > 0
}

} // verus!
