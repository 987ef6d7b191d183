use hypertide::api::{map_error, parse_bearer_token, parse_kind, parse_permission, permission_to_string};
use hypertide::auth::{AuthManager, Permission};
use hypertide::error::HyperTideError;
use hypertide::handlers::{
    check_author, key_prefix, require_admin_at, require_key_at, requested_permissions, revoke_as, verify_response,
};
use hypertide::versioning::model::ChangesetKind;

#[test]
fn test_dev_master_key() {
    let manager = AuthManager::with_dev_key("test-master-key".to_string());

    assert!(manager.validate_key("test-master-key").is_some());

    assert!(manager.has_permission("test-master-key", Permission::Admin));
    assert!(manager.has_permission("test-master-key", Permission::Lock));
    assert!(manager.has_permission("test-master-key", Permission::Upload));
}

#[test]
fn test_generate_and_validate_key() {
    let mut manager = AuthManager::new();

    let api_key = manager.generate_key("alice", vec![Permission::Lock, Permission::Download], None);

    assert!(manager.validate_key(&api_key.key).is_some());

    assert!(manager.has_permission(&api_key.key, Permission::Lock));
    assert!(manager.has_permission(&api_key.key, Permission::Download));
    assert!(!manager.has_permission(&api_key.key, Permission::Admin));
}

#[test]
fn test_revoke_key() {
    let mut manager = AuthManager::new();

    let api_key = manager.generate_key("bob", vec![Permission::Upload], None);
    assert!(manager.validate_key(&api_key.key).is_some());

    assert!(manager.revoke_key(&api_key.key));

    assert!(manager.validate_key(&api_key.key).is_none());
}

#[test]
fn test_invalid_key() {
    let manager = AuthManager::new();

    assert!(manager.validate_key("invalid-key").is_none());
    assert!(!manager.has_permission("invalid-key", Permission::Lock));
}

#[test]
fn generated_keys_have_the_service_prefix_and_no_hyphens() {
    let mut manager = AuthManager::new();
    let key = manager.generate_key("carol", vec![Permission::Lock], Some(30));
    assert!(key.key.starts_with("ht_"));
    assert!(!key.key.contains('-'));
    assert_eq!(key.key.len(), 3 + 32);
    assert_eq!(key.expires_at, Some(key.created_at + 30 * 86_400_000));
}

#[test]
fn expired_key_is_refused() {
    let mut manager = AuthManager::new();
    let key = manager.generate_key("dave", vec![Permission::Lock], Some(-1));
    assert!(manager.validate_key(&key.key).is_none());
    assert!(manager.validate_key_at(&key.key, key.created_at - 86_400_000 - 1).is_some());
}

#[test]
fn maps_authentication_error() {
    let response = map_error(HyperTideError::Authentication("Invalid API key".into()));
    assert_eq!(response.status, 401);
    assert_eq!(response.code, "authentication_failed");
}

#[test]
fn maps_baseline_conflict_error() {
    let response = map_error(HyperTideError::Conflict("baseline mismatch".into()));
    assert_eq!(response.status, 409);
    assert_eq!(response.code, "conflict");
}

#[test]
fn maps_lock_conflict_error() {
    let response = map_error(HyperTideError::Conflict("lock conflict".into()));
    assert_eq!(response.status, 409);
    assert_eq!(response.message, "lock conflict");
}

#[test]
fn maps_object_not_found_error() {
    let response = map_error(HyperTideError::NotFound("Object not found".into()));
    assert_eq!(response.status, 404);
    assert_eq!(response.code, "not_found");
}

#[test]
fn maps_every_error_kind_to_its_status() {
    assert_eq!(map_error(HyperTideError::PermissionDenied("x".into())).status, 403);
    assert_eq!(map_error(HyperTideError::Persistence("x".into())).status, 500);
    assert_eq!(map_error(HyperTideError::Configuration("x".into())).status, 500);
    assert_eq!(map_error(HyperTideError::Validation("x".into())).status, 400);
    assert_eq!(map_error(HyperTideError::Internal("x".into())).status, 500);
}

#[test]
fn permissions_parse_in_any_case_and_print_back() {
    assert_eq!(parse_permission("LOCK"), Some(Permission::Lock));
    assert_eq!(parse_permission("Upload"), Some(Permission::Upload));
    assert_eq!(parse_permission("download"), Some(Permission::Download));
    assert_eq!(parse_permission("admin"), Some(Permission::Admin));
    assert_eq!(parse_permission("root"), None);
    assert_eq!(permission_to_string(&Permission::Download), "download");
}

#[test]
fn bearer_tokens_are_read_from_the_header() {
    assert_eq!(parse_bearer_token("Bearer abc"), Some("abc"));
    assert_eq!(parse_bearer_token("bearer abc def"), Some("abc def"));
    assert_eq!(parse_bearer_token("Bearer "), None);
    assert_eq!(parse_bearer_token("Basic abc"), None);
    assert_eq!(parse_bearer_token("Bearer"), None);
}

#[test]
fn changeset_kinds_parse_with_a_default() {
    assert_eq!(parse_kind(None), Ok(ChangesetKind::Normal));
    assert_eq!(parse_kind(Some("ROLLBACK")), Ok(ChangesetKind::Rollback));
    assert_eq!(parse_kind(Some("merge")), Err("kind must be normal|rollback".to_string()));
}

#[test]
fn key_checks_answer_401_and_403() {
    let mut manager = AuthManager::with_dev_key("master".to_string());
    let key = manager.generate_key("erin", vec![Permission::Download], None);
    let now = key.created_at;
    assert_eq!(
        require_key_at(&manager, "nope", Permission::Download, now).unwrap_err(),
        (401, "Invalid API key".to_string())
    );
    assert_eq!(
        require_key_at(&manager, &key.key, Permission::Upload, now).unwrap_err(),
        (403, "Permission denied".to_string())
    );
    assert_eq!(require_key_at(&manager, &key.key, Permission::Download, now).unwrap().owner_id, "erin");
    assert!(require_key_at(&manager, "master", Permission::Upload, now).is_ok());
    assert_eq!(
        require_admin_at(&manager, &key.key, now).unwrap_err(),
        (403, "Admin permission required".to_string())
    );
    assert!(require_admin_at(&manager, "master", now).is_ok());
}

#[test]
fn revocation_rules() {
    let mut manager = AuthManager::with_dev_key("master".to_string());
    let key = manager.generate_key("frank", vec![Permission::Lock], None);
    assert_eq!(revoke_as(&mut manager, "master", "master").unwrap_err(), (400, "Cannot revoke your own key".to_string()));
    assert_eq!(revoke_as(&mut manager, "master", "ghost").unwrap_err(), (404, "Key not found".to_string()));
    assert_eq!(revoke_as(&mut manager, "master", &key.key), Ok(true));
    assert!(manager.validate_key(&key.key).is_none());
}

#[test]
fn key_requests_need_a_known_permission() {
    let names = vec!["LOCK".to_string(), "fly".to_string(), "admin".to_string()];
    assert_eq!(requested_permissions(&names).unwrap(), vec![Permission::Lock, Permission::Admin]);
    assert_eq!(
        requested_permissions(&vec!["fly".to_string()]).unwrap_err(),
        (400, "At least one valid permission required".to_string())
    );
}

#[test]
fn verification_answers_owner_and_permissions() {
    let mut manager = AuthManager::new();
    let key = manager.generate_key("gina", vec![Permission::Lock, Permission::Upload], None);
    let answer = verify_response(manager.validate_key(&key.key));
    assert!(answer.valid);
    assert_eq!(answer.owner_id.as_deref(), Some("gina"));
    assert_eq!(answer.permissions, vec!["lock".to_string(), "upload".to_string()]);
    let none = verify_response(manager.validate_key("nope"));
    assert!(!none.valid);
    assert!(none.owner_id.is_none());
    assert!(none.permissions.is_empty());
}

#[test]
fn key_listing_shows_only_a_prefix() {
    assert_eq!(key_prefix("ht_0123456789abcdef"), "ht_012345678...");
    assert_eq!(key_prefix("short"), "short...");
}

#[test]
fn authors_must_own_the_key() {
    assert!(check_author("alice", "alice").is_ok());
    assert_eq!(check_author("bob", "alice").unwrap_err(), (403, "author must match API key owner".to_string()));
}

#[test]
fn only_the_configured_master_key_is_the_dev_key() {
    let manager = AuthManager::with_dev_key("test-master-key".to_string());
    assert!(manager.is_dev_master_key("test-master-key"));
    assert!(!manager.is_dev_master_key("other"));
    assert!(!AuthManager::new().is_dev_master_key("test-master-key"));
}

#[test]
fn keys_stay_valid_until_revoked() {
    let mut manager = AuthManager::new();
    let key = manager.generate_key("carol", vec![Permission::Download], None);
    assert!(key.is_valid());
    manager.revoke_key(&key.key);
    assert!(!manager.validate_key(&key.key).is_some());
}

#[test]
fn stored_kinds_default_to_normal() {
    assert_eq!(hypertide::api::parse_stored_kind("rollback"), ChangesetKind::Rollback);
    assert_eq!(hypertide::api::parse_stored_kind("normal"), ChangesetKind::Normal);
    assert_eq!(hypertide::api::parse_stored_kind("ROLLBACK"), ChangesetKind::Normal);
    assert_eq!(hypertide::api::parse_stored_kind(""), ChangesetKind::Normal);
}

#[test]
fn generated_key_is_prefix_and_thirty_two_hex_digits() {
    let mut manager = AuthManager::new();
    let api_key = manager.generate_key("hana", vec![Permission::Lock], None);
    assert_eq!(api_key.key.len(), 35);
    assert!(api_key.key.starts_with("ht_"));
    assert!(api_key.key[3..].chars().all(|c| c.is_ascii_digit() || ('a'..='f').contains(&c)));
}
