use hypertide::digest::hash_text;
use hypertide::witness::{
    parse_witness_entry, split_text, TrustCheckpoint, WitnessReceipt, WitnessService,
};

fn service(keys: &str, quorum: Option<&str>) -> WitnessService {
    WitnessService::from_env(
        Some(keys.to_string()),
        None,
        None,
        quorum.map(|q| q.to_string()),
        None,
    )
}

#[test]
fn configuration_items_fill_defaults_and_skip_incomplete_ones() {
    let w = parse_witness_entry(" w1 : s1 ", "local", "local").expect("entry");
    assert_eq!((w.id.as_str(), w.secret.as_str(), w.scope.as_str(), w.environment.as_str()), ("w1", "s1", "local", "local"));
    let w = parse_witness_entry("w2:s2:eu: prod:blue ", "local", "dev").expect("entry");
    assert_eq!((w.scope.as_str(), w.environment.as_str()), ("eu", "prod:blue"));
    let w = parse_witness_entry("w3:s3: :", "dscope", "denv").expect("entry");
    assert_eq!((w.scope.as_str(), w.environment.as_str()), ("dscope", "denv"));
    assert!(parse_witness_entry("lonely", "l", "l").is_none());
    assert!(parse_witness_entry(":secret", "l", "l").is_none());
    assert!(parse_witness_entry("id: ", "l", "l").is_none());
}

#[test]
fn splitting_keeps_empty_pieces() {
    assert_eq!(split_text("a,,b", ','), vec!["a", "", "b"]);
    assert_eq!(split_text("", ','), vec![""]);
    assert_eq!(split_text("x,", ','), vec!["x", ""]);
}

#[test]
fn default_witnesses_and_quorum() {
    let s = WitnessService::from_env(None, None, None, None, None);
    let t = s.topology();
    assert_eq!(t.witness_ids, vec!["witness-a", "witness-b", "witness-c"]);
    assert_eq!(t.quorum, 2);
    assert_eq!(t.scope, "single-env");
    assert_eq!(t.environments.len(), 1);
    assert_eq!(t.environments[0].environment, "local");
    assert!(!t.cross_environment);
    assert!(!t.cross_environment_quorum_possible);
}

#[test]
fn an_empty_configuration_falls_back_to_the_development_witnesses() {
    let s = WitnessService::from_env(Some(",,bad".to_string()), Some("eu".to_string()), None, None, None);
    let t = s.topology();
    assert_eq!(t.witness_ids, vec!["witness-a", "witness-b", "witness-c"]);
    assert_eq!(t.witness_scopes[0].scope, "eu");
}

#[test]
fn quorum_is_clamped_to_the_witnesses() {
    assert_eq!(service("a:1,b:2", Some("9")).quorum(), 2);
    assert_eq!(service("a:1,b:2", Some("0")).quorum(), 1);
    assert_eq!(service("a:1,b:2,c:3", Some("x")).quorum(), 2);
    assert_eq!(service("a:1", None).quorum(), 1);
    assert_eq!(service("a:1,b:2,c:3", Some("3")).quorum(), 3);
}

#[test]
fn topology_groups_witnesses_by_environment() {
    let s = service("w2:s:scope-b:prod,w1:s:scope-a:prod,w3:s:scope-a:dev,w0:s:scope-a:prod", Some("2"));
    let t = s.topology();
    assert_eq!(t.witness_ids, vec!["w2", "w1", "w3", "w0"]);
    assert_eq!(t.environments.len(), 2);
    assert_eq!(t.environments[0].environment, "dev");
    assert_eq!(t.environments[0].witness_ids, vec!["w3"]);
    assert_eq!(t.environments[1].environment, "prod");
    assert_eq!(t.environments[1].witness_ids, vec!["w0", "w1", "w2"]);
    assert_eq!(t.environments[1].scopes, vec!["scope-a", "scope-b"]);
    assert!(t.cross_environment);
    assert!(t.cross_environment_quorum_possible);
    assert_eq!(t.witness_scopes[2].environment, "dev");
}

fn checkpoint() -> TrustCheckpoint {
    TrustCheckpoint {
        checkpoint_id: "cp-1".to_string(),
        log_head_hash: "head".to_string(),
        log_size: -7,
        state_root: "root".to_string(),
        created_at: 0,
    }
}

#[test]
fn attestation_signs_the_checkpoint_material() {
    let s = service("w1:secret-1:eu,w2:secret-2:us", None);
    let receipt = s.attest_at("cp-1", &checkpoint(), Some("w2"), 42).expect("receipt");
    assert_eq!(receipt.witness_id, "w2");
    assert_eq!(receipt.created_at, 42);
    assert_eq!(receipt.signature, hash_text("secret-2|cp-1|head|-7|root"));
    assert_eq!(receipt.signature.len(), 64);
    let first = s.attest("cp-1", &checkpoint(), None).expect("first witness");
    assert_eq!(first.witness_id, "w1");
    assert_eq!(first.signature, hash_text("secret-1|cp-1|head|-7|root"));
    assert_eq!(s.attest_at("cp-1", &checkpoint(), Some("w9"), 0).unwrap_err(), "witness_id not configured");
}

fn receipt(witness: &str) -> WitnessReceipt {
    WitnessReceipt {
        checkpoint_id: "cp-1".to_string(),
        witness_id: witness.to_string(),
        signature: "sig".to_string(),
        created_at: 0,
    }
}

#[test]
fn summary_counts_receipts_and_scopes() {
    let s = service("w1:s:eu,w2:s:us,w3:s:eu", Some("2"));
    let one = s.summary("cp-1", vec![receipt("w1")]);
    assert!(!one.quorum_met);
    assert!(!one.cross_scope_quorum_met);
    let same = s.summary("cp-1", vec![receipt("w1"), receipt("w3")]);
    assert!(same.quorum_met);
    assert_eq!(same.distinct_scopes, vec!["eu"]);
    assert!(!same.cross_scope_quorum_met);
    let cross = s.summary("cp-1", vec![receipt("w2"), receipt("w1"), receipt("ghost")]);
    assert!(cross.quorum_met);
    assert_eq!(cross.distinct_scopes, vec!["eu", "us"]);
    assert!(cross.cross_scope_quorum_met);
    assert_eq!(cross.receipts.len(), 3);
    assert_eq!(cross.quorum, 2);
}
