//! Request authentication: bearer tokens and API keys.

use vstd::prelude::*;
use vstd::string::StrSliceExecFns;
use crate::clock::now_secs;
use crate::logging::formatter::{decimal, push_decimal};
use crate::text::{seq_starts_with, starts_with, str_equal};

verus! {

/// What authentication asks of a request.
#[derive(Debug, Clone)]
pub struct AuthConfig {
    pub enabled: bool,
    pub token: Option<String>,
    pub api_keys: Vec<String>,
}

impl Default for AuthConfig {
    /// Authentication switched off, with no token and no keys.
    fn default() -> (r: Self)
        ensures
            !r.enabled,
            r.token.is_none(),
            r.api_keys@.len() == 0,
    {
        AuthConfig { enabled: false, token: None, api_keys: Vec::new() }
    }
}

/// The answer to an authentication attempt.
#[derive(Debug, Clone)]
pub struct AuthResponse {
    pub authenticated: bool,
    pub message: String,
}

/// `token` is the configured token.
pub open spec fn token_valid(config: AuthConfig, token: Seq<char>) -> bool {
    config.token matches Some(t) && t@ == token
}

/// `key` is one of the configured API keys.
pub open spec fn api_key_valid(config: AuthConfig, key: Seq<char>) -> bool {
    exists|i: int| 0 <= i < config.api_keys@.len() && (#[trigger] config.api_keys@[i])@ == key
}

/// Whether a request with the `Authorization` header `header` is let through:
/// always when authentication is off; otherwise only with `Bearer ` and the
/// configured token, or `ApiKey ` and one of the configured keys.
pub open spec fn request_allowed(config: AuthConfig, header: Option<Seq<char>>) -> bool {
    if !config.enabled {
        true
    } else {
        match header {
            None => false,
            Some(h) => if seq_starts_with(h, "Bearer "@) {
                token_valid(config, h.subrange(7, h.len() as int))
            } else if seq_starts_with(h, "ApiKey "@) {
                api_key_valid(config, h.subrange(7, h.len() as int))
            } else {
                false
            },
        }
    }
}

/// Whether `token` is the configured token.
pub fn is_valid_token(auth_config: &AuthConfig, token: &str) -> (r: bool)
    ensures
        r == token_valid(*auth_config, token@),
{
    match &auth_config.token {
        Some(t) => str_equal(t.as_str(), token),
        None => false,
    }
}

/// Whether `api_key` is one of the configured keys.
pub fn is_valid_api_key(auth_config: &AuthConfig, api_key: &str) -> (r: bool)
    ensures
        r == api_key_valid(*auth_config, api_key@),
{
    let keys = &auth_config.api_keys;
    let mut i: usize = 0;
    while i < keys.len()
        invariant
            keys == &auth_config.api_keys,
            i <= keys@.len(),
            forall|j: int| 0 <= j < i ==> (#[trigger] keys@[j])@ != api_key@,
        decreases keys@.len() - i,
    {
        if str_equal(keys[i].as_str(), api_key) {
            return true;
        }
        i = i + 1;
    }
    false
}

/// Decides whether a request carrying the `Authorization` header `header`
/// may pass.
pub fn authorize_request(auth_config: &AuthConfig, header: Option<&str>) -> (r: bool)
    ensures
        r == request_allowed(*auth_config, match header {
            Some(h) => Some(h@),
            None => None,
        }),
{
    proof {
        reveal_strlit("Bearer ");
        reveal_strlit("ApiKey ");
    }
    if !auth_config.enabled {
        return true;
    }
    match header {
        None => false,
        Some(h) => {
            let n = h.unicode_len();
            if starts_with(h, "Bearer ") {
                let token = h.substring_char(7, n);
                is_valid_token(auth_config, token)
            } else if starts_with(h, "ApiKey ") {
                let key = h.substring_char(7, n);
                is_valid_api_key(auth_config, key)
            } else {
                false
            }
        },
    }
}

/// The token issued at `secs` seconds since the Unix epoch.
pub open spec fn token_text(secs: nat) -> Seq<char> {
    "cgminer_token_"@ + decimal(secs)
}

/// The token issued at `secs` seconds since the Unix epoch.
pub fn token_for(secs: u64) -> (r: String)
    ensures
        r@ == token_text(secs as nat),
{
    let mut s = String::from_str("cgminer_token_");
    push_decimal(&mut s, secs);
    s
}

/// Issues a token stamped with the current time.
pub fn generate_token() -> (r: String)
    ensures
        exists|secs: u64| r@ == token_text(secs as nat),
{
    let secs = now_secs();
    token_for(secs)
}

/// Every non-empty token carries every permission.
pub fn verify_permissions(token: &str, required_permission: &str) -> (r: bool)
    ensures
        r == (token@.len() > 0),
{
    !token.is_empty()
}


/// With authentication switched off every request passes, whatever it
/// carries.
pub proof fn law_disabled_auth_allows_all(config: AuthConfig, header: Option<Seq<char>>)
    requires
        !config.enabled,
    ensures
        request_allowed(config, header),
{
}

/// With authentication on, a request without an `Authorization` header is
/// refused.
pub proof fn law_missing_header_refused(config: AuthConfig)
    requires
        config.enabled,
    ensures
        !request_allowed(config, None),
{
}
} // verus!
