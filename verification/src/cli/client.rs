//! The client's credentials: when its access token must be renewed, and how
//! a new pair of tokens replaces the old one.
use vstd::prelude::*;
use crate::cli::models::{CliProfile, TokenPair};
use crate::text::{saturating_sub_i64, saturating_diff};

verus! {

/// How long before its expiry, in seconds, an access token is renewed.
pub const RENEW_MARGIN_SECS: i64 = 30;

/// Whether a token that expires at `expires_at` must be renewed at `now`:
/// when there is no expiry, or within the margin before it.
pub open spec fn needs_renewal(expires_at: Option<i64>, now: i64) -> bool {
    match expires_at {
        None => true,
        Some(e) => now >= saturating_diff(e as int, RENEW_MARGIN_SECS as int),
    }
}

/// `e`, or zero when negative.
pub open spec fn lifetime(e: i64) -> int {
    if e > 0 {
        e as int
    } else {
        0
    }
}

/// Whether the access token of `profile` must be renewed at `now_unix`
/// (seconds): when there is no expiry, or within the margin before it.
pub fn token_expired(profile: &CliProfile, now_unix: i64) -> (r: bool)
    ensures
        r == needs_renewal(profile.access_token_expires_at, now_unix),
{
    match profile.access_token_expires_at {
        None => true,
        Some(expires_at) => now_unix >= saturating_sub_i64(expires_at, RENEW_MARGIN_SECS),
    }
}

/// `profile` with the tokens of `pair`, the access token expiring
/// `pair.expires_in` seconds (none if negative) after `now_unix`.
pub fn apply_token_pair(profile: &mut CliProfile, pair: TokenPair, now_unix: i64)
    requires
        now_unix + lifetime(pair.expires_in) <= i64::MAX,
    ensures
        final(profile).access_token == Some(pair.access_token),
        final(profile).refresh_token == Some(pair.refresh_token),
        final(profile).access_token_expires_at == Some((now_unix + lifetime(pair.expires_in)) as i64),
        final(profile).server == old(profile).server,
        final(profile).api_key == old(profile).api_key,
        final(profile).api_key_direct == old(profile).api_key_direct,
        final(profile).current_repo == old(profile).current_repo,
        final(profile).current_branch == old(profile).current_branch,
{
    let lifetime = if pair.expires_in > 0 {
        pair.expires_in
    } else {
        0
    };
    profile.access_token = Some(pair.access_token);
    profile.refresh_token = Some(pair.refresh_token);
    profile.access_token_expires_at = Some(now_unix + lifetime);
}

/// Tokens just received need no renewal unless they live no longer than
/// the renewal margin.
pub proof fn fresh_tokens_need_no_renewal(now: i64, expires_in: i64)
    requires
        now + lifetime(expires_in) <= i64::MAX,
    ensures
        needs_renewal(Some((now + lifetime(expires_in)) as i64), now) <==> lifetime(expires_in)
            <= RENEW_MARGIN_SECS,
{
}

/// How a request is authenticated.
#[derive(Debug, PartialEq, Eq)]
pub enum Credential {
    /// The API key, in the `X-API-Key` header.
    ApiKey(String),
    /// The access token, as a bearer token.
    Bearer(String),
}

/// The credential that a request of `profile` carries: the API key when the
/// profile uses it directly or has no access token, the access token otherwise.
pub fn credential(profile: &CliProfile) -> (r: Credential)
    ensures
        r == (if profile.api_key_direct || profile.access_token is None {
            Credential::ApiKey(profile.api_key)
        } else {
            Credential::Bearer(profile.access_token->0)
        }),
{
    if profile.api_key_direct {
        return Credential::ApiKey(profile.api_key.clone());
    }
    match &profile.access_token {
        Some(token) => Credential::Bearer(token.clone()),
        None => Credential::ApiKey(profile.api_key.clone()),
    }
}

/// How long before its expiry, in seconds, an access token is reported as
/// about to expire.
pub const TOKEN_WARN_SECS: i64 = 300;

/// What the health check says of the access token.
#[derive(Debug, Clone, Copy, PartialEq, Eq, Structural)]
pub enum TokenHealth {
    /// The profile sends its API key; no token is checked.
    Unchecked,
    /// The token must be renewed.
    Expired,
    /// The token expires within the warning time; the seconds left.
    ExpiresSoon(i64),
    /// The token is valid; the seconds left.
    Valid(i64),
}

/// What the health check says of the access token of `profile` at
/// `now_unix` (seconds).
pub open spec fn token_health_spec(profile: CliProfile, now_unix: i64) -> TokenHealth {
    if profile.api_key_direct {
        TokenHealth::Unchecked
    } else if needs_renewal(profile.access_token_expires_at, now_unix) {
        TokenHealth::Expired
    } else {
        let remaining = saturating_diff(profile.access_token_expires_at->0 as int, now_unix as int);
        if remaining < TOKEN_WARN_SECS {
            TokenHealth::ExpiresSoon(remaining)
        } else {
            TokenHealth::Valid(remaining)
        }
    }
}

/// What the health check says of the access token of `profile` at
/// `now_unix` (seconds).
pub fn token_health(profile: &CliProfile, now_unix: i64) -> (r: TokenHealth)
    ensures
        r == token_health_spec(*profile, now_unix),
{
    if profile.api_key_direct {
        return TokenHealth::Unchecked;
    }
    if token_expired(profile, now_unix) {
        return TokenHealth::Expired;
    }
    match profile.access_token_expires_at {
        Some(expires_at) => {
            let remaining = saturating_sub_i64(expires_at, now_unix);
            if remaining < TOKEN_WARN_SECS {
                TokenHealth::ExpiresSoon(remaining)
            } else {
                TokenHealth::Valid(remaining)
            }
        },
        None => TokenHealth::Expired,
    }
}

} // verus!
