use hypertide::server::{
    check_token_type, issue_claims, token_claims, AttestationProvider, AuthProvider, CommunityAuthProvider,
    CommunityPolicyEngine, EventMetadata, NoopAttestationProvider, PolicyDecision, PolicyEngine,
};

#[test]
fn claims_carry_the_issue_and_expiry_times() {
    let c = token_claims("alice", vec!["lock".to_string()], "access", "hypertide", 1_000, 900, "j".to_string(), None, None);
    assert_eq!((c.iat, c.exp), (1_000, 1_900));
    assert_eq!(c.token_type, "access");
    let early = token_claims("a", vec![], "refresh", "i", -10, 5, "j".to_string(), Some("f".to_string()), None);
    assert_eq!((early.iat, early.exp), (0, 0));
    let fresh = issue_claims("bob", vec![], "access", "hypertide", 60, None, None);
    assert_eq!(fresh.exp - fresh.iat, 60);
    assert!(!fresh.jti.is_empty());
}

#[test]
fn token_types_are_checked() {
    let c = token_claims("a", vec![], "refresh", "i", 0, 0, "j".to_string(), None, None);
    assert_eq!(check_token_type(c, "access").unwrap_err(), "invalid token type: expected access");
    let c = token_claims("a", vec![], "access", "i", 0, 0, "j".to_string(), None, None);
    assert_eq!(check_token_type(c, "access").unwrap().sub, "a");
}

#[test]
fn community_edition_providers() {
    assert_eq!(CommunityAuthProvider.describe(), "community-api-key-jwt");
    assert_eq!(CommunityPolicyEngine.evaluate("delete"), PolicyDecision::Allow);
    assert_eq!(NoopAttestationProvider.attest("x"), Ok(None));
    let m = EventMetadata::default();
    assert!(m.workflow_id.is_none() && m.tool_id.is_none() && m.session_id.is_none());
}
