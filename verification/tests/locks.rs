use hypertide::handlers::{ensure_lock_access_at, lock_owner_for, hash_request, history_params, rollback_plan_view, rollback_submission, submission_from_request};
use hypertide::digest::hash_bytes;
use hypertide::lock::{FileLock, LockManager};
use hypertide::requests::{HashRequest, HistoryQuery, SubmitChangesetRequest};
use hypertide::versioning::model::{AssetDelta, ChangesetKind, RollbackPlan};

const T0: i64 = 1_700_000_000_000;

#[test]
fn a_live_lock_excludes_other_owners() {
    let mut locks = LockManager::new(60);
    let l = locks.try_lock_at("a.psd".to_string(), "alice".to_string(), T0).expect("granted");
    assert_eq!(l.lease_expires_at, Some(T0 + 60_000));
    assert_eq!(
        locks.try_lock_at("a.psd".to_string(), "bob".to_string(), T0 + 1).unwrap_err(),
        "File is already locked by alice"
    );
    let again = locks.try_lock_at("a.psd".to_string(), "alice".to_string(), T0 + 2).expect("same owner");
    assert_eq!(again.locked_at, T0);
    let taken = locks.try_lock_at("a.psd".to_string(), "bob".to_string(), T0 + 60_000).expect("expired lease");
    assert_eq!(taken.owner_id, "bob");
}

#[test]
fn leases_last_at_least_thirty_seconds() {
    let mut locks = LockManager::new(5);
    let l = locks.try_lock_at("b".to_string(), "alice".to_string(), T0).expect("granted");
    assert_eq!(l.lease_expires_at, Some(T0 + 30_000));
    let mut negative = LockManager::new(-120);
    let l = negative.try_lock_at("b".to_string(), "alice".to_string(), T0).expect("granted");
    assert_eq!(l.lease_expires_at, Some(T0 + 30_000));
}

#[test]
fn only_the_owner_renews_or_releases() {
    let mut locks = LockManager::new(60);
    locks.try_lock_at("c".to_string(), "alice".to_string(), T0).expect("granted");
    assert_eq!(locks.unlock("c", "bob").unwrap_err(), "Cannot unlock: File is locked by alice");
    assert_eq!(locks.renew_lock_at("c", "bob", T0).unwrap_err(), "Cannot renew: File is locked by alice");
    let renewed = locks.renew_lock_at("c", "alice", T0 + 10_000).expect("renewed");
    assert_eq!(renewed.lease_expires_at, Some(T0 + 70_000));
    assert_eq!(locks.renew_lock_at("c", "alice", T0 + 70_000).unwrap_err(), "Cannot renew: lock lease expired");
    assert_eq!(locks.unlock("c", "alice").unwrap_err(), "File is not locked");
    assert_eq!(locks.renew_lock_at("z", "alice", T0).unwrap_err(), "File is not locked");
    locks.try_lock_at("d".to_string(), "alice".to_string(), T0).expect("granted");
    assert!(locks.unlock("d", "alice").is_ok());
    assert!(locks.get_lock_at("d", T0).is_none());
    locks.try_lock_at("e".to_string(), "alice".to_string(), T0).expect("granted");
    assert!(locks.force_unlock("e"));
    assert!(!locks.force_unlock("e"));
}

#[test]
fn listing_shows_only_live_locks() {
    let mut locks = LockManager::new(30);
    locks.try_lock_at("x".to_string(), "alice".to_string(), T0).expect("x");
    locks.try_lock_at("y".to_string(), "bob".to_string(), T0 + 20_000).expect("y");
    let live = locks.list_locks_at(T0 + 40_000);
    assert_eq!(live.len(), 1);
    assert_eq!(live[0].file_path, "y");
}

fn delta(path: &str) -> AssetDelta {
    AssetDelta { path: path.to_string(), blob_hash: Some("h".to_string()) }
}

#[test]
fn submissions_respect_other_owners_locks() {
    let mut locks = LockManager::new(60);
    locks.try_lock_at("mine".to_string(), "alice".to_string(), T0).expect("mine");
    locks.try_lock_at("theirs".to_string(), "bob".to_string(), T0).expect("theirs");
    assert!(ensure_lock_access_at(&locks, "alice", &vec![delta("mine"), delta("free")], T0).is_ok());
    assert_eq!(
        ensure_lock_access_at(&locks, "alice", &vec![delta("mine"), delta("theirs")], T0).unwrap_err(),
        (409, "Lock conflict on theirs. owner=bob".to_string())
    );
    assert!(ensure_lock_access_at(&locks, "alice", &vec![delta("theirs")], T0 + 60_000).is_ok());
}

#[test]
fn requests_become_submissions_with_defaults() {
    let input = submission_from_request(
        SubmitChangesetRequest {
            repo_id: "r".to_string(),
            branch: None,
            base_changeset_id: Some("ROOT".to_string()),
            kind: None,
            rollback_of: None,
            author: "alice".to_string(),
            message: "m".to_string(),
            assets: vec![delta("a")],
        },
        ChangesetKind::Normal,
    );
    assert_eq!(input.branch, "main");
    assert_eq!(input.assets.len(), 1);
    let (branch, limit, cursor) = history_params(HistoryQuery { branch: None, limit: None, cursor: Some(4) });
    assert_eq!((branch.as_str(), limit, cursor), ("main", 20, 4));
}

#[test]
fn rollbacks_become_rollback_changesets() {
    let plan = RollbackPlan {
        repo_id: "r".to_string(),
        branch: "main".to_string(),
        base_changeset_id: "c2".to_string(),
        target_changeset_id: "c1".to_string(),
        assets: vec![delta("a")],
    };
    let input = rollback_submission(&plan, "alice".to_string(), None);
    assert_eq!(input.message, "rollback: c1");
    assert_eq!(input.kind, ChangesetKind::Rollback);
    assert_eq!(input.base_changeset_id.as_deref(), Some("c2"));
    assert_eq!(input.rollback_of.as_deref(), Some("c1"));
    let named = rollback_submission(&plan, "alice".to_string(), Some("undo".to_string()));
    assert_eq!(named.message, "undo");
    let view = rollback_plan_view(&plan);
    assert_eq!(view.asset_count, 1);
}

#[test]
fn hash_requests_decode_base64() {
    let ok = hash_request(&HashRequest { data: "aGVsbG8=".to_string() }).expect("decoded");
    assert_eq!(ok.hash, hash_bytes(b"hello"));
    let err = hash_request(&HashRequest { data: "***".to_string() }).unwrap_err();
    assert!(err.starts_with("Invalid base64: "));
}

#[test]
fn a_rebuilt_table_keeps_the_last_lock_of_each_path() {
    let lock = |path: &str, owner: &str, at: i64| FileLock {
        file_path: path.to_string(),
        owner_id: owner.to_string(),
        locked_at: at,
        lease_expires_at: None,
    };
    let locks = LockManager::from_locks(vec![lock("a", "alice", T0), lock("b", "bob", T0), lock("a", "carol", T0 + 5)], 60);
    assert_eq!(locks.get_lock("a").expect("held").owner_id, "carol");
    assert_eq!(locks.get_lock("b").expect("held").owner_id, "bob");
    assert!(locks.get_lock("c").is_none());
    assert_eq!(locks.list_locks().len(), 2);
}

#[test]
fn lock_requests_act_for_the_caller() {
    assert_eq!(lock_owner_for("dev-admin", None).unwrap(), "dev-admin");
    assert_eq!(lock_owner_for("dev-admin", Some("dev-admin")).unwrap(), "dev-admin");
    let refusal = lock_owner_for("dev-admin", Some("spoofed-user")).unwrap_err();
    assert_eq!(refusal.0, 403);
    assert_eq!(refusal.1, "owner_id does not match the authenticated key");
}
