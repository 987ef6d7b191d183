use hypertide::audit::{audit_entry_hash, GENESIS_HASH};
use hypertide::compliance::RetentionPolicy;
use hypertide::digest::{hash_bytes, hash_text};
use hypertide::high_risk::{nonce_verdict, HighRiskGuard};
use hypertide::replay::{tally, verification, ReplaySummary};
use hypertide::storage::object_key;

#[test]
fn retention_policy_defaults_and_overrides() {
    let p = RetentionPolicy::from_env(None, None, None, None);
    assert_eq!(
        (p.audit_retention_days, p.event_retention_days, p.checkpoint_retention_days, p.dry_run_only),
        (3650, 365, 365, true)
    );
    let p = RetentionPolicy::from_env(
        Some("30".to_string()),
        Some("x".to_string()),
        Some("-5".to_string()),
        Some("NO".to_string()),
    );
    assert_eq!(
        (p.audit_retention_days, p.event_retention_days, p.checkpoint_retention_days, p.dry_run_only),
        (30, 365, -5, false)
    );
    assert!(RetentionPolicy::from_env(None, None, None, Some("Yes".to_string())).dry_run_only);
    assert!(!RetentionPolicy::from_env(None, None, None, Some("0".to_string())).dry_run_only);
    assert!(RetentionPolicy::from_env(None, None, None, Some("maybe".to_string())).dry_run_only);
}

fn guard() -> HighRiskGuard {
    HighRiskGuard::from_env(Some("TRUE".to_string()), Some("s3cret".to_string()), None)
}

fn signature(ts: i64, payload: &str) -> String {
    let payload_hash = hash_text(payload);
    let message = format!("merge|alice|n-1|{ts}|{payload_hash}");
    let key = jsonwebtoken::EncodingKey::from_secret(b"s3cret");
    jsonwebtoken::crypto::sign(message.as_bytes(), &key, jsonwebtoken::Algorithm::HS256).expect("hmac")
}

#[test]
fn high_risk_signatures_are_hmac_sha256() {
    // HMAC-SHA256 keyed with "s3cret" over "merge|alice|n-1|1000|" and the
    // BLAKE3 hash of the empty payload, in URL-safe base64 without padding.
    let g = guard();
    let sig = "JyD2vjOLviA_dLyv9ni6JbLw0Ia4EQv_vUDJvoOjBJM";
    assert!(g.verify_at(Some("n-1"), Some("1000"), Some(sig), "merge", "alice", "", 1_000).is_ok());
    let blake3_style = hash_text(&format!("s3cret|merge|alice|n-1|1000|{}", hash_text("")));
    assert_eq!(
        g.verify_at(Some("n-1"), Some("1000"), Some(&blake3_style), "merge", "alice", "", 1_000).unwrap_err(),
        "invalid signature"
    );
}

#[test]
fn high_risk_guard_settings() {
    let g = HighRiskGuard::from_env(None, None, Some("x".to_string()));
    assert!(!g.required);
    assert_eq!(g.secret, "hypertide-dev-signing-secret");
    assert_eq!(g.skew_secs, 300);
    assert!(HighRiskGuard::from_env(Some("1".to_string()), None, Some("60".to_string())).required);
    assert!(!HighRiskGuard::from_env(Some("yes".to_string()), None, None).required);
    assert_eq!(HighRiskGuard::from_env(None, None, Some("60".to_string())).skew_secs, 60);
}

#[test]
fn high_risk_requests_are_checked_in_order() {
    let g = guard();
    let sig = signature(1_000, "{}");
    let now = 1_100;
    let ok = g
        .verify_at(Some("n-1"), Some("1000"), Some(&sig), "merge", "alice", "{}", now)
        .expect("accepted")
        .expect("nonce to keep");
    assert_eq!(ok.nonce, "n-1");
    assert_eq!(ok.expires_at, now + 300);
    assert_eq!(
        g.verify_at(None, Some("1000"), Some(&sig), "merge", "alice", "{}", now).unwrap_err(),
        "missing X-HT-Nonce"
    );
    assert_eq!(
        g.verify_at(Some("n-1"), None, Some(&sig), "merge", "alice", "{}", now).unwrap_err(),
        "missing X-HT-Timestamp"
    );
    assert_eq!(
        g.verify_at(Some("n-1"), Some("soon"), Some(&sig), "merge", "alice", "{}", now).unwrap_err(),
        "invalid X-HT-Timestamp"
    );
    assert_eq!(
        g.verify_at(Some("n-1"), Some("1000"), None, "merge", "alice", "{}", now).unwrap_err(),
        "missing X-HT-Signature"
    );
    assert_eq!(
        g.verify_at(Some("n-1"), Some("1000"), Some(&sig), "merge", "alice", "{}", 1_301).unwrap_err(),
        "signature timestamp out of window"
    );
    assert_eq!(
        g.verify_at(Some("n-1"), Some("1000"), Some(&sig), "merge", "alice", "{\"x\":1}", now).unwrap_err(),
        "invalid signature"
    );
    let off = HighRiskGuard::from_env(None, None, None);
    assert!(off.verify_at(None, None, None, "merge", "alice", "{}", now).unwrap().is_none());
    assert_eq!(nonce_verdict(0).unwrap_err(), "nonce replay detected");
    assert!(nonce_verdict(1).is_ok());
}

#[test]
fn short_windows_keep_nonces_thirty_seconds() {
    let g = HighRiskGuard::from_env(Some("1".to_string()), Some("s3cret".to_string()), Some("5".to_string()));
    let sig = signature(1_000, "{}");
    let ok = g.verify_at(Some("n-1"), Some("1000"), Some(&sig), "merge", "alice", "{}", 1_003).unwrap().unwrap();
    assert_eq!(ok.expires_at, 1_033);
}

#[test]
fn replay_tallies_and_compares() {
    let events: Vec<String> = [
        "LOCK_ACQUIRED",
        "LOCK_ACQUIRED",
        "LOCK_FORCE_RELEASED",
        "CHANGESET_VISIBLE",
        "ROLLBACK_VISIBLE",
        "CHANGESET_APPROVED",
        "CHANGESET_PROMOTED",
        "OTHER",
    ]
    .iter()
    .map(|s| s.to_string())
    .collect();
    let s = tally(&events);
    assert_eq!(
        (s.events_processed, s.lock_acquired, s.lock_released, s.changeset_visible, s.changeset_approved, s.changeset_promoted),
        (8, 2, 1, 2, 1, 1)
    );
    let v = verification(s, 1, 2);
    assert!(v.consistency_ok);
    assert!(v.mismatches.is_empty());
    let v = verification(tally(&events), 3, 5);
    assert!(!v.consistency_ok);
    assert_eq!(
        v.mismatches,
        vec![
            "locks mismatch: replay_estimated=1, current=3".to_string(),
            "visible changesets mismatch: replay_visible_events=2, current_visible_changesets=5".to_string(),
        ]
    );
    let empty = ReplaySummary::default();
    assert_eq!(empty.events_processed, 0);
}

#[test]
fn audit_entries_chain_their_hashes() {
    let payload = b"{\"a\":1}";
    let first = audit_entry_hash(None, "login", "alice", None, Some("t"), payload, 1_700);
    let payload_hash = hash_bytes(payload);
    assert_eq!(first, hash_text(&format!("{GENESIS_HASH}|login|alice||t|{payload_hash}|1700")));
    let second = audit_entry_hash(Some(&first), "logout", "alice", Some("r"), None, payload, -3);
    assert_eq!(second, hash_text(&format!("{first}|logout|alice|r||{payload_hash}|-3")));
}

#[test]
fn objects_are_stored_under_their_hash_prefix() {
    assert_eq!(object_key("abcdef"), Some(("ab".to_string(), "cdef".to_string())));
    assert_eq!(object_key("ab"), None);
    assert_eq!(object_key("abc"), Some(("ab".to_string(), "c".to_string())));
}
