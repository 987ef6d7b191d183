//! The server's tokens, the attribution of its events, and the extension
//! points that the community edition fills.
use vstd::prelude::*;
use crate::clock::{now_seconds, new_uuid_string, MAX_ABS_TIME_MILLIS};
use crate::text::{str_eq, text_concat};

verus! {

/// The claims of a signed token; times are in seconds since the Unix epoch.
#[derive(Debug)]
pub struct TokenClaims {
    pub sub: String,
    pub permissions: Vec<String>,
    pub token_type: String,
    pub iss: String,
    pub iat: usize,
    pub exp: usize,
    pub jti: String,
    pub family_id: Option<String>,
    pub parent_jti: Option<String>,
}

/// A pair of tokens as the server hands it out; `expires_in` is the lifetime
/// of the access token in seconds.
#[derive(Debug)]
pub struct TokenPair {
    pub access_token: String,
    pub refresh_token: String,
    pub token_type: String,
    pub expires_in: i64,
}

/// The type of an access token.
pub const ACCESS_TOKEN_TYPE: &'static str = "access";

/// The type of a refresh token.
pub const REFRESH_TOKEN_TYPE: &'static str = "refresh";

/// `x`, or zero when negative.
pub open spec fn not_below_zero(x: int) -> int {
    if x < 0 {
        0
    } else {
        x
    }
}

/// The claims of a token of `token_type` for `sub`, issued by `issuer` at
/// `now` with id `jti`, valid for `ttl_secs` seconds (times before the epoch
/// are written as zero).
pub fn token_claims(
    sub: &str,
    permissions: Vec<String>,
    token_type: &str,
    issuer: &str,
    now: i64,
    ttl_secs: i64,
    jti: String,
    family_id: Option<String>,
    parent_jti: Option<String>,
) -> (r: TokenClaims)
    requires
        i64::MIN <= now + ttl_secs <= i64::MAX,
    ensures
        r.sub@ == sub@,
        r.permissions == permissions,
        r.token_type@ == token_type@,
        r.iss@ == issuer@,
        r.iat == not_below_zero(now as int) as usize,
        r.exp == not_below_zero(now + ttl_secs) as usize,
        r.jti == jti,
        r.family_id == family_id,
        r.parent_jti == parent_jti,
{
    let iat: usize = if now < 0 {
        0
    } else {
        #[verifier::truncate]
        (now as usize)
    };
    let end: i64 = now + ttl_secs;
    let exp: usize = if end < 0 {
        0
    } else {
        #[verifier::truncate]
        (end as usize)
    };
    TokenClaims {
        sub: sub.to_owned(),
        permissions,
        token_type: token_type.to_owned(),
        iss: issuer.to_owned(),
        iat,
        exp,
        jti,
        family_id,
        parent_jti,
    }
}

/// The longest lifetime, in seconds, that a token can be issued for at any
/// time of the clock without overflow.
pub const MAX_TOKEN_TTL_SECS: i64 = 9_223_362_036_854_775_807;

/// The claims of a token of `token_type` for `sub`, issued by `issuer` now,
/// with a fresh random id.
pub fn issue_claims(
    sub: &str,
    permissions: Vec<String>,
    token_type: &str,
    issuer: &str,
    ttl_secs: i64,
    family_id: Option<String>,
    parent_jti: Option<String>,
) -> (r: TokenClaims)
    requires
        -MAX_TOKEN_TTL_SECS <= ttl_secs <= MAX_TOKEN_TTL_SECS,
    ensures
        r.sub@ == sub@,
        r.permissions == permissions,
        r.token_type@ == token_type@,
        r.iss@ == issuer@,
        exists|now: i64|
            r.iat == #[trigger] not_below_zero(now as int) as usize && r.exp == not_below_zero(now + ttl_secs) as usize,
        r.family_id == family_id,
        r.parent_jti == parent_jti,
{
    let now = now_seconds();
    let jti = new_uuid_string();
    token_claims(sub, permissions, token_type, issuer, now, ttl_secs, jti, family_id, parent_jti)
}

/// The claims of a decoded token, if it has the expected type; otherwise
/// `invalid token type: expected <type>`.
pub fn check_token_type(claims: TokenClaims, expected_type: &str) -> (r: Result<TokenClaims, String>)
    ensures
        claims.token_type@ == expected_type@ ==> r == Ok::<TokenClaims, String>(claims),
        claims.token_type@ != expected_type@ ==> r is Err && r->Err_0@ == "invalid token type: expected "@
            + expected_type@,
{
    if str_eq(claims.token_type.as_str(), expected_type) {
        Ok(claims)
    } else {
        Err(text_concat("invalid token type: expected ", expected_type))
    }
}

/// Attribution of an event: the workflow, the tool and the session that
/// caused it, from the `X-HT-Workflow-Id`, `X-HT-Tool-Id` and
/// `X-HT-Session-Id` headers of the request.
#[derive(Debug)]
pub struct EventMetadata {
    pub workflow_id: Option<String>,
    pub tool_id: Option<String>,
    pub session_id: Option<String>,
}

impl Default for EventMetadata {
    fn default() -> (r: Self)
        ensures
            r.workflow_id is None && r.tool_id is None && r.session_id is None,
    {
        EventMetadata { workflow_id: None, tool_id: None, session_id: None }
    }
}

/// What a policy decides of an operation.
#[derive(Debug, Clone, Copy, PartialEq, Eq, Structural)]
pub enum PolicyDecision {
    Allow,
    Deny,
}

/// Who authenticates the users of a deployment.
pub trait AuthProvider {
    fn describe(&self) -> &'static str;
}

/// What decides whether an operation is allowed.
pub trait PolicyEngine {
    fn evaluate(&self, operation: &str) -> PolicyDecision;
}

/// What countersigns a subject, if anything.
pub trait AttestationProvider {
    fn attest(&self, subject: &str) -> Result<Option<String>, String>;
}

/// The authentication of the community edition: API keys and tokens.
#[derive(Debug, Default, Clone, Copy)]
pub struct CommunityAuthProvider;

/// The policy of the community edition: everything is allowed.
#[derive(Debug, Default, Clone, Copy)]
pub struct CommunityPolicyEngine;

/// No attestation.
#[derive(Debug, Default, Clone, Copy)]
pub struct NoopAttestationProvider;

/// An audit sink that publishes nowhere.
#[derive(Debug, Default, Clone, Copy)]
pub struct NoopAuditSink;

/// The witness topology of the community edition.
#[derive(Debug, Default, Clone, Copy)]
pub struct CommunityWitnessProvider;

impl AuthProvider for CommunityAuthProvider {
    fn describe(&self) -> (r: &'static str)
        ensures
            r@ == "community-api-key-jwt"@,
    {
        "community-api-key-jwt"
    }
}

impl PolicyEngine for CommunityPolicyEngine {
    fn evaluate(&self, operation: &str) -> (r: PolicyDecision)
        ensures
            r == PolicyDecision::Allow,
    {
        PolicyDecision::Allow
    }
}

impl AttestationProvider for NoopAttestationProvider {
    fn attest(&self, subject: &str) -> (r: Result<Option<String>, String>)
        ensures
            r == Ok::<Option<String>, String>(None),
    {
        Ok(None)
    }
}

} // verus!
