//! The signature check on high-risk requests: a request carries a nonce, a
//! timestamp and a signature over what it asks, and a signature is honoured
//! once, within a window of time.
use vstd::prelude::*;
use crate::text::{
    parse_i64, parsed_i64, str_eq, str_eq_ignore_ascii_case, eq_ignore_ascii_case, i64_to_text, signed_decimal,
};
use crate::digest::{blake3_hex, hash_text};
use crate::clock::{now_seconds, MAX_ABS_TIME_MILLIS};

verus! {

/// The signing secret used when none is configured.
pub const DEFAULT_SIGNING_SECRET: &'static str = "hypertide-dev-signing-secret";

/// The accepted distance, in seconds, between a signature's time and the
/// server's clock when none is configured.
pub const DEFAULT_SKEW_SECS: i64 = 300;

/// The least time, in seconds, that a nonce is remembered.
pub const MIN_NONCE_SECS: i64 = 30;

/// The greatest window that `chrono::Duration::seconds` accepts.
pub const MAX_SKEW_SECS: i64 = 9_223_372_036_854_775;

/// The settings of the check.
#[derive(Debug)]
pub struct HighRiskGuard {
    pub required: bool,
    pub secret: String,
    pub skew_secs: i64,
}

/// A nonce to remember, so that its signature is not honoured twice, until
/// `expires_at` (seconds since the Unix epoch).
#[derive(Debug)]
pub struct NonceClaim {
    pub nonce: String,
    pub action: String,
    pub actor_id: String,
    pub expires_at: i64,
}

pub open spec fn bar() -> Seq<char> {
    seq!['|']
}

pub open spec fn hash_of_text(t: Seq<char>) -> Seq<char> {
    blake3_hex(vstd::utf8::encode_utf8(t))
}

/// What `jsonwebtoken::crypto::sign` gives with `HS256` for the key bytes
/// `key` and the message bytes `message`: the HMAC-SHA256 of the message,
/// in URL-safe base64 without padding.
pub uninterp spec fn hmac_sha256_base64url(key: Seq<u8>, message: Seq<u8>) -> Seq<char>;

/// Calls `jsonwebtoken::crypto::sign` with `Algorithm::HS256` and the secret
/// `key`: the HMAC-SHA256 of `message`, in URL-safe base64 without padding.
/// For HMAC algorithms that call cannot fail.
#[verifier::external_body]
fn hmac_sha256_text(key: &str, message: &str) -> (r: String)
    ensures
        r@ == hmac_sha256_base64url(vstd::utf8::encode_utf8(key@), vstd::utf8::encode_utf8(message@)),
{
    let key = jsonwebtoken::EncodingKey::from_secret(key.as_bytes());
    jsonwebtoken::crypto::sign(message.as_bytes(), &key, jsonwebtoken::Algorithm::HS256).unwrap_or_default()
}

/// What a request's signature covers: the action, the actor, the nonce, the
/// timestamp and the hash of the payload's JSON text, separated by `|`.
pub open spec fn signed_message(
    action: Seq<char>,
    actor_id: Seq<char>,
    nonce: Seq<char>,
    timestamp: i64,
    payload_json: Seq<char>,
) -> Seq<char> {
    action + bar() + actor_id + bar() + nonce + bar() + signed_decimal(timestamp as int) + bar() + hash_of_text(
        payload_json,
    )
}

/// The signature that a request must carry: the HMAC-SHA256, keyed with the
/// secret, of what it signs, in URL-safe base64 without padding.
pub open spec fn expected_signature(
    secret: Seq<char>,
    action: Seq<char>,
    actor_id: Seq<char>,
    nonce: Seq<char>,
    timestamp: i64,
    payload_json: Seq<char>,
) -> Seq<char> {
    hmac_sha256_base64url(
        vstd::utf8::encode_utf8(secret),
        vstd::utf8::encode_utf8(signed_message(action, actor_id, nonce, timestamp, payload_json)),
    )
}

pub open spec fn opt_text(o: Option<&str>) -> Option<Seq<char>> {
    match o {
        Some(s) => Some(s@),
        None => None,
    }
}

pub open spec fn abs(x: int) -> int {
    if x < 0 {
        -x
    } else {
        x
    }
}

/// The answer to a request with the given headers at `now` (seconds): `Ok`
/// with the nonce to remember and until when, `Ok(None)` when signatures are
/// not required, or the reason of the refusal.
pub open spec fn verdict(
    g: HighRiskGuard,
    nonce: Option<Seq<char>>,
    timestamp: Option<Seq<char>>,
    signature: Option<Seq<char>>,
    action: Seq<char>,
    actor_id: Seq<char>,
    payload_json: Seq<char>,
    now: i64,
) -> Result<Option<(Seq<char>, int)>, Seq<char>> {
    if !g.required {
        Ok(None)
    } else if nonce is None {
        Err("missing X-HT-Nonce"@)
    } else if timestamp is None {
        Err("missing X-HT-Timestamp"@)
    } else if parsed_i64(timestamp->0) is None {
        Err("invalid X-HT-Timestamp"@)
    } else if signature is None {
        Err("missing X-HT-Signature"@)
    } else {
        let ts = parsed_i64(timestamp->0)->0;
        if abs(now - ts) > g.skew_secs {
            Err("signature timestamp out of window"@)
        } else if expected_signature(g.secret@, action, actor_id, nonce->0, ts, payload_json) != signature->0 {
            Err("invalid signature"@)
        } else {
            Ok(Some((nonce->0, now + if g.skew_secs > MIN_NONCE_SECS { g.skew_secs as int } else { MIN_NONCE_SECS as int })))
        }
    }
}

pub open spec fn claim_view(r: Result<Option<NonceClaim>, String>) -> Result<Option<(Seq<char>, int)>, Seq<char>> {
    match r {
        Ok(Some(c)) => Ok(Some((c.nonce@, c.expires_at as int))),
        Ok(None) => Ok(None),
        Err(e) => Err(e@),
    }
}

/// Whether a setting turns signatures on: `1`, or `true` in any case of letters.
pub open spec fn required_setting(value: Option<String>) -> bool {
    match value {
        Some(v) => v@ == "1"@ || eq_ignore_ascii_case(v@, "true"@),
        None => false,
    }
}

/// The window of a setting: its number, or the default when the setting is
/// absent or not a number.
pub open spec fn skew_setting(value: Option<String>) -> i64 {
    match value {
        Some(v) => match parsed_i64(v@) {
            Some(n) => n,
            None => DEFAULT_SKEW_SECS,
        },
        None => DEFAULT_SKEW_SECS,
    }
}

fn signed_text(action: &str, actor_id: &str, nonce: &str, timestamp: i64, payload_json: &str) -> (r: String)
    ensures
        r@ == signed_message(action@, actor_id@, nonce@, timestamp, payload_json@),
{
    proof {
        reveal_strlit("|");
    }
    let payload_hash = hash_text(payload_json);
    let mut m = action.to_owned();
    m.append("|");
    m.append(actor_id);
    m.append("|");
    m.append(nonce);
    m.append("|");
    m.append(i64_to_text(timestamp).as_str());
    m.append("|");
    m.append(payload_hash.as_str());
    assert(m@ =~= signed_message(action@, actor_id@, nonce@, timestamp, payload_json@));
    m
}

impl HighRiskGuard {
    /// The guard that the settings `HIGH_RISK_SIGNATURE_REQUIRED`,
    /// `HIGH_RISK_SIGNING_SECRET` and `HIGH_RISK_SIG_SKEW_SECS` describe,
    /// given their values (`None` for one that is not set).
    pub fn from_env(required: Option<String>, secret: Option<String>, skew_secs: Option<String>) -> (r:
        HighRiskGuard)
        ensures
            r.required == required_setting(required),
            r.secret@ == (match secret {
                Some(s) => s@,
                None => DEFAULT_SIGNING_SECRET@,
            }),
            r.skew_secs == skew_setting(skew_secs),
    {
        let required = match required {
            Some(v) => str_eq(v.as_str(), "1") || str_eq_ignore_ascii_case(v.as_str(), "true"),
            None => false,
        };
        let secret = match secret {
            Some(s) => s,
            None => DEFAULT_SIGNING_SECRET.to_owned(),
        };
        let skew_secs = match skew_secs {
            Some(v) => match parse_i64(v.as_str()) {
                Some(n) => n,
                None => DEFAULT_SKEW_SECS,
            },
            None => DEFAULT_SKEW_SECS,
        };
        HighRiskGuard { required, secret, skew_secs }
    }

    /// The check of a request at `now` (seconds since the Unix epoch), given
    /// its `X-HT-Nonce`, `X-HT-Timestamp` and `X-HT-Signature` headers, what
    /// it does, who asks, and the JSON text of its payload.
    pub fn verify_at(
        &self,
        nonce: Option<&str>,
        timestamp: Option<&str>,
        signature: Option<&str>,
        action: &str,
        actor_id: &str,
        payload_json: &str,
        now: i64,
    ) -> (r: Result<Option<NonceClaim>, String>)
        requires
            self.skew_secs <= MAX_SKEW_SECS,
            -MAX_ABS_TIME_MILLIS / 1000 < now < MAX_ABS_TIME_MILLIS / 1000,
        ensures
            claim_view(r) == verdict(
                *self,
                opt_text(nonce),
                opt_text(timestamp),
                opt_text(signature),
                action@,
                actor_id@,
                payload_json@,
                now,
            ),
            match r {
                Ok(Some(c)) => c.action@ == action@ && c.actor_id@ == actor_id@,
                _ => true,
            },
    {
        if !self.required {
            return Ok(None);
        }
        let nonce = match nonce {
            Some(n) => n,
            None => {
                return Err("missing X-HT-Nonce".to_owned());
            },
        };
        let timestamp = match timestamp {
            Some(t) => t,
            None => {
                return Err("missing X-HT-Timestamp".to_owned());
            },
        };
        let ts = match parse_i64(timestamp) {
            Some(t) => t,
            None => {
                return Err("invalid X-HT-Timestamp".to_owned());
            },
        };
        let signature = match signature {
            Some(s) => s,
            None => {
                return Err("missing X-HT-Signature".to_owned());
            },
        };
        let d: i128 = now as i128 - ts as i128;
        let dist: i128 = if d < 0 {
            -d
        } else {
            d
        };
        if dist > self.skew_secs as i128 {
            return Err("signature timestamp out of window".to_owned());
        }
        let m = signed_text(action, actor_id, nonce, ts, payload_json);
        let expected = hmac_sha256_text(self.secret.as_str(), m.as_str());
        if !str_eq(expected.as_str(), signature) {
            return Err("invalid signature".to_owned());
        }
        let keep = if self.skew_secs > MIN_NONCE_SECS {
            self.skew_secs
        } else {
            MIN_NONCE_SECS
        };
        Ok(Some(NonceClaim { nonce: nonce.to_owned(), action: action.to_owned(), actor_id: actor_id.to_owned(), expires_at: now + keep }))
    }

    /// The check of a request now.
    pub fn verify(
        &self,
        nonce: Option<&str>,
        timestamp: Option<&str>,
        signature: Option<&str>,
        action: &str,
        actor_id: &str,
        payload_json: &str,
    ) -> (r: Result<Option<NonceClaim>, String>)
        requires
            self.skew_secs <= MAX_SKEW_SECS,
        ensures
            exists|now: i64|
                claim_view(r) == #[trigger] verdict(
                    *self,
                    opt_text(nonce),
                    opt_text(timestamp),
                    opt_text(signature),
                    action@,
                    actor_id@,
                    payload_json@,
                    now,
                ),
    {
        let now = now_seconds();
        let r = self.verify_at(nonce, timestamp, signature, action, actor_id, payload_json, now);
        assert(claim_view(r) == verdict(
            *self,
            opt_text(nonce),
            opt_text(timestamp),
            opt_text(signature),
            action@,
            actor_id@,
            payload_json@,
            now,
        ));
        r
    }
}

/// The answer once the nonce of an accepted request was offered to the store
/// of nonces, which added `rows_added` rows: a nonce that the store held
/// already is a replay.
pub fn nonce_verdict(rows_added: u64) -> (r: Result<(), String>)
    ensures
        r is Ok <==> rows_added > 0,
        match r {
            Err(e) => e@ == "nonce replay detected"@,
            Ok(_) => true,
        },
{
    if rows_added == 0 {
        Err("nonce replay detected".to_owned())
    } else {
        Ok(())
    }
}


/// With signatures off, every request passes and no nonce is kept.
pub proof fn unsigned_mode_lets_all_pass(
    g: HighRiskGuard,
    nonce: Option<Seq<char>>,
    timestamp: Option<Seq<char>>,
    signature: Option<Seq<char>>,
    action: Seq<char>,
    actor_id: Seq<char>,
    payload_json: Seq<char>,
    now: i64,
)
    requires
        !g.required,
    ensures
        verdict(g, nonce, timestamp, signature, action, actor_id, payload_json, now) == Ok::<
            Option<(Seq<char>, int)>,
            Seq<char>,
        >(None),
{
}

/// A request signed with the secret, over what it asks, within the window,
/// passes, and its nonce is to be kept for at least thirty seconds.
pub proof fn correctly_signed_request_passes(
    g: HighRiskGuard,
    nonce: Seq<char>,
    timestamp: Seq<char>,
    ts: i64,
    action: Seq<char>,
    actor_id: Seq<char>,
    payload_json: Seq<char>,
    now: i64,
)
    requires
        g.required,
        parsed_i64(timestamp) == Some(ts),
        abs(now - ts) <= g.skew_secs,
    ensures
        ({
            let v = verdict(
                g,
                Some(nonce),
                Some(timestamp),
                Some(expected_signature(g.secret@, action, actor_id, nonce, ts, payload_json)),
                action,
                actor_id,
                payload_json,
                now,
            );
            match v {
                Ok(Some((kept, until))) => kept == nonce && until >= now + MIN_NONCE_SECS,
                _ => false,
            }
        }),
{
}

/// A request whose signature is not the expected one is refused, however
/// fresh it is.
pub proof fn wrong_signature_is_refused(
    g: HighRiskGuard,
    nonce: Seq<char>,
    timestamp: Seq<char>,
    ts: i64,
    signature: Seq<char>,
    action: Seq<char>,
    actor_id: Seq<char>,
    payload_json: Seq<char>,
    now: i64,
)
    requires
        g.required,
        parsed_i64(timestamp) == Some(ts),
        signature != expected_signature(g.secret@, action, actor_id, nonce, ts, payload_json),
    ensures
        verdict(g, Some(nonce), Some(timestamp), Some(signature), action, actor_id, payload_json, now) is Err,
{
}

} // verus!
