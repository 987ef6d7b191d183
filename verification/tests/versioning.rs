use hypertide::versioning::manager::VersionManager;
use hypertide::versioning::model::{
    AssetDelta, ChangesetKind, ChangesetRecord, SubmitChangesetInput, VersioningError, ROOT_BASE_CHANGESET_ID,
};
use hypertide::versioning::persist::{DeltaRow, SnapshotRow, StoredRepo};

fn submit(
    manager: &mut VersionManager,
    repo: &str,
    base: Option<&str>,
    kind: ChangesetKind,
    rollback_of: Option<String>,
    message: &str,
    assets: Vec<AssetDelta>,
) -> Result<hypertide::versioning::model::ChangesetRecord, VersioningError> {
    manager.submit_changeset(SubmitChangesetInput {
        repo_id: repo.to_string(),
        branch: "main".to_string(),
        base_changeset_id: base.map(|b| b.to_string()),
        kind,
        rollback_of,
        author: "alice".to_string(),
        message: message.to_string(),
        assets,
    })
}

fn delta(path: &str, hash: &str) -> AssetDelta {
    AssetDelta {
        path: path.to_string(),
        blob_hash: Some(hash.to_string()),
    }
}

#[test]
fn submit_with_head_match_advances_branch_head() {
    let mut manager = VersionManager::new();

    let c1 = submit(
        &mut manager,
        "repo-a",
        Some(ROOT_BASE_CHANGESET_ID),
        ChangesetKind::Normal,
        None,
        "first",
        vec![delta("a.txt", "hash-1")],
    )
    .expect("first commit should succeed");

    let c2 = submit(
        &mut manager,
        "repo-a",
        Some(&c1.changeset_id),
        ChangesetKind::Normal,
        None,
        "second",
        vec![delta("a.txt", "hash-2")],
    )
    .expect("second commit should succeed");

    let sync = manager
        .sync_snapshot("repo-a", "main", None)
        .expect("snapshot should exist");
    assert_eq!(sync.changeset_id, Some(c2.changeset_id));
    assert_eq!(sync.assets.len(), 1);
    assert_eq!(sync.assets[0].blob_hash, "hash-2");
}

#[test]
fn stale_base_is_rejected() {
    let mut manager = VersionManager::new();

    let c1 = submit(
        &mut manager,
        "repo-b",
        Some(ROOT_BASE_CHANGESET_ID),
        ChangesetKind::Normal,
        None,
        "first",
        vec![],
    )
    .expect("first should succeed");

    let c2 = submit(
        &mut manager,
        "repo-b",
        Some(ROOT_BASE_CHANGESET_ID),
        ChangesetKind::Normal,
        None,
        "invalid",
        vec![],
    )
    .expect_err("stale base must fail");

    assert_eq!(
        c2,
        VersioningError::BaseChangesetMismatch {
            repo_id: "repo-b".to_string(),
            branch: "main".to_string(),
            expected: Some(c1.changeset_id),
            got: Some(ROOT_BASE_CHANGESET_ID.to_string()),
        }
    );
}

#[test]
fn rollback_plan_targets_existing_history() {
    let mut manager = VersionManager::new();
    let c1 = submit(
        &mut manager,
        "repo-c",
        Some(ROOT_BASE_CHANGESET_ID),
        ChangesetKind::Normal,
        None,
        "first",
        vec![delta("a", "h1")],
    )
    .expect("first commit");

    let c2 = submit(
        &mut manager,
        "repo-c",
        Some(&c1.changeset_id),
        ChangesetKind::Normal,
        None,
        "second",
        vec![delta("a", "h2")],
    )
    .expect("second commit");

    let plan = manager
        .build_rollback_plan("repo-c", "main", &c1.changeset_id)
        .expect("rollback plan");
    assert_eq!(plan.base_changeset_id, c2.changeset_id.clone());
    assert_eq!(plan.assets.len(), 1);
    assert_eq!(plan.assets[0].blob_hash.as_deref(), Some("h1"));

    let base = plan.base_changeset_id.clone();
    submit(
        &mut manager,
        "repo-c",
        Some(&base),
        ChangesetKind::Rollback,
        Some(plan.target_changeset_id),
        "rollback",
        plan.assets,
    )
    .expect("rollback commit should be accepted");

    let sync = manager.sync_snapshot("repo-c", "main", None).expect("snapshot");
    assert_eq!(sync.assets[0].blob_hash, "h1");
}

#[test]
fn first_commit_without_base_is_refused() {
    let mut manager = VersionManager::new();
    let err = submit(&mut manager, "repo-d", None, ChangesetKind::Normal, None, "x", vec![])
        .expect_err("a base is required");
    assert_eq!(err, VersioningError::BaseChangesetRequired);
}

#[test]
fn same_base_twice_is_refused() {
    let mut manager = VersionManager::new();
    submit(&mut manager, "repo-e", Some(ROOT_BASE_CHANGESET_ID), ChangesetKind::Normal, None, "a", vec![])
        .expect("first");
    let err = submit(&mut manager, "repo-e", Some(ROOT_BASE_CHANGESET_ID), ChangesetKind::Normal, None, "b", vec![]);
    assert!(matches!(err, Err(VersioningError::BaseChangesetMismatch { .. })));
}

#[test]
fn history_lists_newest_first() {
    let mut manager = VersionManager::new();
    let c1 = submit(&mut manager, "repo-f", Some(ROOT_BASE_CHANGESET_ID), ChangesetKind::Normal, None, "one", vec![])
        .expect("one");
    let c2 = submit(&mut manager, "repo-f", Some(&c1.changeset_id), ChangesetKind::Normal, None, "two", vec![])
        .expect("two");
    let page = manager.history("repo-f", "main", 20, 0).expect("history");
    assert_eq!(page.items.len(), 2);
    assert_eq!(page.items[0].changeset_id, c2.changeset_id);
    assert_eq!(page.items[1].changeset_id, c1.changeset_id);
    assert_eq!(page.next_cursor, None);

    let first = manager.history("repo-f", "main", 1, 0).expect("first page");
    assert_eq!(first.items.len(), 1);
    assert_eq!(first.next_cursor, Some(1));
}

#[test]
fn unknown_repo_and_branch_are_reported() {
    let mut manager = VersionManager::new();
    assert_eq!(
        manager.list_branches("nope").expect_err("unknown repo"),
        VersioningError::RepoNotFound { repo_id: "nope".to_string() }
    );
    submit(&mut manager, "repo-g", Some(ROOT_BASE_CHANGESET_ID), ChangesetKind::Normal, None, "a", vec![])
        .expect("first");
    assert_eq!(
        manager.sync_snapshot("repo-g", "dev", None).expect_err("unknown branch"),
        VersioningError::BranchNotFound { repo_id: "repo-g".to_string(), branch: "dev".to_string() }
    );
}

#[test]
fn creating_an_existing_branch_is_refused() {
    let mut manager = VersionManager::new();
    submit(&mut manager, "repo-h", Some(ROOT_BASE_CHANGESET_ID), ChangesetKind::Normal, None, "a", vec![])
        .expect("first");
    let dev = manager.create_branch("repo-h", "dev", None, "alice").expect("dev");
    assert_eq!(dev.name, "dev");
    assert_eq!(
        manager.create_branch("repo-h", "dev", None, "alice").expect_err("twice"),
        VersioningError::BranchAlreadyExists { repo_id: "repo-h".to_string(), branch: "dev".to_string() }
    );
    let names: Vec<String> = manager
        .list_branches("repo-h")
        .expect("branches")
        .into_iter()
        .map(|b| b.name)
        .collect();
    assert_eq!(names, vec!["dev".to_string(), "main".to_string()]);
}

#[test]
fn deletion_removes_the_asset_from_the_snapshot() {
    let mut manager = VersionManager::new();
    let c1 = submit(
        &mut manager,
        "repo-i",
        Some(ROOT_BASE_CHANGESET_ID),
        ChangesetKind::Normal,
        None,
        "add",
        vec![delta("a", "h1"), delta("b", "h2")],
    )
    .expect("add");
    submit(
        &mut manager,
        "repo-i",
        Some(&c1.changeset_id),
        ChangesetKind::Normal,
        None,
        "delete",
        vec![AssetDelta { path: "a".to_string(), blob_hash: None }],
    )
    .expect("delete");
    let sync = manager.sync_snapshot("repo-i", "main", None).expect("sync");
    assert_eq!(sync.assets.len(), 1);
    assert_eq!(sync.assets[0].path, "b");
    let old = manager.sync_snapshot("repo-i", "main", Some(&c1.changeset_id)).expect("old");
    assert_eq!(old.assets.len(), 2);
}

#[test]
fn rollback_to_the_head_is_refused() {
    let mut manager = VersionManager::new();
    let c1 = submit(&mut manager, "repo-j", Some(ROOT_BASE_CHANGESET_ID), ChangesetKind::Normal, None, "a", vec![])
        .expect("first");
    let err = manager.build_rollback_plan("repo-j", "main", &c1.changeset_id).expect_err("head");
    assert!(matches!(err, VersioningError::InvalidRollbackTarget { .. }));
    let missing = manager.build_rollback_plan("repo-j", "main", "zzz").expect_err("missing");
    assert_eq!(
        missing,
        VersioningError::InvalidRollbackTarget {
            repo_id: "repo-j".to_string(),
            branch: "main".to_string(),
            target_changeset_id: "zzz".to_string(),
        }
    );
}

#[test]
fn errors_compare_by_kind_and_fields() {
    let a = VersioningError::RepoNotFound { repo_id: "r".to_string() };
    let b = VersioningError::RepoNotFound { repo_id: "r".to_string() };
    let c = VersioningError::RepoNotFound { repo_id: "s".to_string() };
    assert!(a.same_as(&b));
    assert!(!a.same_as(&c));
    assert!(!a.same_as(&VersioningError::BaseChangesetRequired));
    assert!(VersioningError::BaseChangesetRequired.same_as(&VersioningError::BaseChangesetRequired));
}

fn reload(manager: &VersionManager, repo: &str) -> VersionManager {
    let rows = manager.repo_rows(repo).expect("repository kept");
    let mut changesets = Vec::new();
    let mut deltas = Vec::new();
    for c in rows.changesets {
        for d in &c.assets {
            deltas.push(DeltaRow { changeset_id: c.changeset_id.clone(), delta: d.clone() });
        }
        changesets.push(ChangesetRecord { assets: Vec::new(), ..c });
    }
    let mut snapshot_rows = Vec::new();
    for s in rows.snapshots {
        for e in s.entries {
            snapshot_rows.push(SnapshotRow { changeset_id: s.changeset_id.clone(), entry: e });
        }
    }
    let stored = StoredRepo {
        repo_id: rows.repo_id,
        created_by: rows.created_by,
        branches: rows.branches,
        changesets,
        deltas,
        snapshot_rows,
    };
    VersionManager::from_stored(vec![stored], 0)
}

#[test]
fn stored_rows_rebuild_the_repository() {
    let mut manager = VersionManager::new();
    let c1 = submit(&mut manager, "repo-p", Some(ROOT_BASE_CHANGESET_ID), ChangesetKind::Normal, None, "one",
        vec![delta("a.txt", "h1")]).expect("first");
    let c2 = submit(&mut manager, "repo-p", Some(&c1.changeset_id), ChangesetKind::Normal, None, "two",
        vec![delta("b.txt", "h2")]).expect("second");
    assert!(manager.repo_rows("nope").is_none());
    let rows = manager.repo_rows("repo-p").expect("kept");
    assert_eq!(rows.created_by, "alice");
    assert_eq!(rows.default_branch, "main");
    assert_eq!(rows.branches.len(), 1);
    assert_eq!(rows.changesets.len(), 2);

    let reloaded = reload(&manager, "repo-p");
    let sync = reloaded.sync_snapshot("repo-p", "main", None).expect("sync");
    assert_eq!(sync.changeset_id.as_deref(), Some(c2.changeset_id.as_str()));
    assert_eq!(sync.assets.len(), 2);
    let history = reloaded.history("repo-p", "main", 10, 0).expect("history");
    assert_eq!(history.items.len(), 2);
    assert_eq!(history.items[0].changeset_id, c2.changeset_id);
    assert_eq!(history.items[0].assets.len(), 1);
    let c3 = submit(&mut reload(&manager, "repo-p"), "repo-p", Some(&c2.changeset_id), ChangesetKind::Normal, None,
        "three", vec![delta("a.txt", "h3")]);
    assert!(c3.is_ok());
}

#[test]
fn a_repository_without_branch_rows_gets_its_default_branch() {
    let stored = StoredRepo {
        repo_id: "repo-q".to_string(),
        created_by: "bob".to_string(),
        branches: Vec::new(),
        changesets: Vec::new(),
        deltas: Vec::new(),
        snapshot_rows: Vec::new(),
    };
    let manager = VersionManager::from_stored(vec![stored], 42);
    let branches = manager.list_branches("repo-q").expect("repository");
    assert_eq!(branches.len(), 1);
    assert_eq!(branches[0].name, "main");
    assert_eq!(branches[0].created_by, "bob");
    assert_eq!(branches[0].created_at, 42);
    assert!(branches[0].is_default);
}

#[test]
fn new_branch_starts_at_the_named_changeset_with_its_lineage() {
    let mut manager = VersionManager::new();
    let c1 = submit(&mut manager, "repo-lb", Some(ROOT_BASE_CHANGESET_ID), ChangesetKind::Normal, None, "a", vec![])
        .expect("first");
    let c2 = submit(&mut manager, "repo-lb", Some(&c1.changeset_id), ChangesetKind::Normal, None, "b", vec![])
        .expect("second");

    let feat = manager.create_branch("repo-lb", "feat", Some(&c1.changeset_id), "alice").expect("feat");
    assert_eq!(feat.name, "feat");
    assert_eq!(feat.created_by, "alice");
    assert!(!feat.is_default);
    assert_eq!(feat.head_changeset_id.as_deref(), Some(c1.changeset_id.as_str()));
    let feat_ids: Vec<String> = manager
        .history("repo-lb", "feat", 50, 0)
        .expect("feat history")
        .items
        .into_iter()
        .map(|c| c.changeset_id)
        .collect();
    assert_eq!(feat_ids, vec![c1.changeset_id.clone()]);

    let tip = manager.create_branch("repo-lb", "tip", None, "bob").expect("tip");
    assert_eq!(tip.head_changeset_id.as_deref(), Some(c2.changeset_id.as_str()));
    let tip_ids: Vec<String> = manager
        .history("repo-lb", "tip", 50, 0)
        .expect("tip history")
        .items
        .into_iter()
        .map(|c| c.changeset_id)
        .collect();
    assert_eq!(tip_ids, vec![c2.changeset_id.clone(), c1.changeset_id.clone()]);

    assert_eq!(
        manager.create_branch("repo-lb", "ghost", Some("nope"), "bob").expect_err("unknown"),
        VersioningError::ChangesetNotFound { repo_id: "repo-lb".to_string(), changeset_id: "nope".to_string() }
    );
    assert_eq!(
        manager.create_branch("repo-lb", "main", None, "bob").expect_err("main exists"),
        VersioningError::BranchAlreadyExists { repo_id: "repo-lb".to_string(), branch: "main".to_string() }
    );
}
