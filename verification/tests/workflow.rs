use hypertide::cli::models::{AssetDelta, FileLockInfo, StageFile, WorkspaceState};
use hypertide::cli::workflow::{
    branch_head, chunk_plan, chunks_to_send, find_lock_owner, plan_submission, stage_for_branch, stale_base,
    uploads_directly, DIRECT_UPLOAD_THRESHOLD_BYTES, MIN_CHUNK_BYTES,
};
use hypertide::session::{CheckpointAsset, CheckpointSnapshot};
use hypertide::versioning::model::BranchRecord;

fn staged(branch: &str, base: Option<&str>, paths: &[(&str, Option<&str>)]) -> StageFile {
    StageFile {
        branch: branch.to_string(),
        base_changeset_id: base.map(|b| b.to_string()),
        assets: paths
            .iter()
            .map(|(p, h)| AssetDelta { path: p.to_string(), blob_hash: h.map(|h| h.to_string()) })
            .collect(),
    }
}

#[test]
fn kept_stage_is_used_only_on_its_branch() {
    let kept = staged("main", Some("cs-1"), &[("a.txt", Some("h1"))]);
    let same = stage_for_branch(Some(kept), "main");
    assert_eq!(same.branch, "main");
    assert_eq!(same.base_changeset_id.as_deref(), Some("cs-1"));
    assert_eq!(same.assets.len(), 1);

    let kept = staged("main", Some("cs-1"), &[("a.txt", Some("h1"))]);
    let other = stage_for_branch(Some(kept), "feature");
    assert_eq!(other.branch, "feature");
    assert!(other.base_changeset_id.is_none());
    assert!(other.assets.is_empty());

    let fresh = stage_for_branch(None, "dev");
    assert_eq!(fresh.branch, "dev");
    assert!(fresh.assets.is_empty());
}

#[test]
fn submission_of_an_empty_stage_is_refused() {
    let stage = staged("main", None, &[]);
    let err = plan_submission(&stage, None, None).unwrap_err();
    assert_eq!(err, "nothing staged; use `ht add --path --blob` first");
}

#[test]
fn submission_sends_the_staged_changes() {
    let stage = staged("main", Some("cs-7"), &[("a.txt", Some("h1")), ("b.txt", None)]);
    let plan = plan_submission(&stage, None, Some("public")).unwrap();
    assert_eq!(plan.assets.len(), 2);
    assert_eq!(plan.assets[0].path, "a.txt");
    assert_eq!(plan.assets[0].blob_hash.as_deref(), Some("h1"));
    assert_eq!(plan.assets[1].path, "b.txt");
    assert!(plan.assets[1].blob_hash.is_none());
    assert_eq!(plan.base_hint.as_deref(), Some("cs-7"));
    assert_eq!(plan.visibility.as_deref(), Some("public"));
    assert!(plan.session_id.is_none());
    assert!(plan.checkpoint_id.is_none());
}

#[test]
fn submission_from_a_checkpoint_is_a_draft_of_its_assets() {
    let stage = staged("main", Some("cs-7"), &[("a.txt", Some("h1"))]);
    let checkpoint = CheckpointSnapshot {
        checkpoint_id: "ckpt-1".to_string(),
        session_id: "sess-1".to_string(),
        repo_id: "repo".to_string(),
        branch: "main".to_string(),
        base_changeset_id: Some("cs-3".to_string()),
        workspace_root: "/w".to_string(),
        assets: vec![CheckpointAsset {
            asset_id: "x".to_string(),
            path: "c.txt".to_string(),
            blob_hash: "h3".to_string(),
        }],
    };
    let plan = plan_submission(&stage, Some(&checkpoint), None).unwrap();
    assert_eq!(plan.assets.len(), 1);
    assert_eq!(plan.assets[0].path, "c.txt");
    assert_eq!(plan.assets[0].blob_hash.as_deref(), Some("h3"));
    assert_eq!(plan.base_hint.as_deref(), Some("cs-3"));
    assert_eq!(plan.visibility.as_deref(), Some("draft"));
    assert_eq!(plan.session_id.as_deref(), Some("sess-1"));
    assert_eq!(plan.checkpoint_id.as_deref(), Some("ckpt-1"));
}

fn branch(name: &str, head: Option<&str>) -> BranchRecord {
    BranchRecord {
        name: name.to_string(),
        created_by: "alice".to_string(),
        created_at: 0,
        is_default: name == "main",
        head_changeset_id: head.map(|h| h.to_string()),
    }
}

#[test]
fn branch_head_is_found_or_refused() {
    let branches = vec![branch("main", Some("cs-9")), branch("empty", None)];
    assert_eq!(branch_head(&branches, "main").unwrap(), "cs-9");
    assert_eq!(branch_head(&branches, "empty").unwrap(), "ROOT");
    assert_eq!(branch_head(&branches, "nope").unwrap_err(), "branch not found: nope");
}

#[test]
fn workspace_is_stale_when_its_base_is_not_the_head() {
    let mut workspace = WorkspaceState {
        repo_id: "repo".to_string(),
        branch: "main".to_string(),
        workspace_root: "/w".to_string(),
        base_changeset_id: Some("cs-1".to_string()),
        checked_out_assets: vec![],
        last_synced_at: 0,
    };
    assert!(!stale_base(&workspace, "cs-1"));
    assert!(stale_base(&workspace, "cs-2"));
    workspace.base_changeset_id = None;
    assert!(!stale_base(&workspace, "ROOT"));
    assert!(stale_base(&workspace, "cs-1"));
}

#[test]
fn first_lock_on_a_path_names_its_owner() {
    let lock = |path: &str, owner: &str| FileLockInfo {
        file_path: path.to_string(),
        owner_id: owner.to_string(),
        locked_at: "t".to_string(),
        lease_expires_at: None,
    };
    let locks = vec![lock("a.txt", "alice"), lock("b.txt", "bob"), lock("a.txt", "carol")];
    assert_eq!(find_lock_owner(&locks, "a.txt").as_deref(), Some("alice"));
    assert_eq!(find_lock_owner(&locks, "b.txt").as_deref(), Some("bob"));
    assert!(find_lock_owner(&locks, "c.txt").is_none());
}

#[test]
fn chunks_are_cut_at_the_smallest_size_at_least() {
    let bytes: Vec<u8> = (0..(MIN_CHUNK_BYTES * 2 + 10)).map(|i| (i % 251) as u8).collect();
    let plan = chunk_plan(&bytes, 10);
    assert_eq!(plan.len(), 3);
    assert_eq!(plan[0].i, 0);
    assert_eq!(plan[0].size, MIN_CHUNK_BYTES);
    assert_eq!(plan[1].size, MIN_CHUNK_BYTES);
    assert_eq!(plan[2].i, 2);
    assert_eq!(plan[2].size, 10);
    let first = blake3::hash(&bytes[..MIN_CHUNK_BYTES]).to_hex().to_string();
    assert_eq!(plan[0].chunk_hash, first);
    let last = blake3::hash(&bytes[MIN_CHUNK_BYTES * 2..]).to_hex().to_string();
    assert_eq!(plan[2].chunk_hash, last);
}

#[test]
fn a_large_chunk_size_keeps_one_chunk() {
    let bytes = vec![7u8; 1000];
    let plan = chunk_plan(&bytes, 1 << 20);
    assert_eq!(plan.len(), 1);
    assert_eq!(plan[0].size, 1000);
    assert!(chunk_plan(&[], 1 << 20).is_empty());
}

#[test]
fn only_missing_chunks_are_sent() {
    let bytes: Vec<u8> = (0..(MIN_CHUNK_BYTES * 3)).map(|i| (i % 7) as u8).collect();
    let plan = chunk_plan(&bytes, MIN_CHUNK_BYTES);
    assert_eq!(plan.len(), 3);
    let missing = vec![plan[2].chunk_hash.clone(), "unrelated".to_string(), plan[0].chunk_hash.clone()];
    let send = chunks_to_send(&plan, &missing);
    assert_eq!(send, vec![0, 2]);
    let distinct: Vec<u8> = (0..(MIN_CHUNK_BYTES * 3)).map(|i| (i / MIN_CHUNK_BYTES) as u8).collect();
    let plan = chunk_plan(&distinct, MIN_CHUNK_BYTES);
    let missing = vec![plan[2].chunk_hash.clone()];
    assert_eq!(chunks_to_send(&plan, &missing), vec![2]);
    assert!(chunks_to_send(&plan, &vec![]).is_empty());
}

#[test]
fn small_files_are_uploaded_whole() {
    assert!(uploads_directly(0));
    assert!(uploads_directly(DIRECT_UPLOAD_THRESHOLD_BYTES));
    assert!(!uploads_directly(DIRECT_UPLOAD_THRESHOLD_BYTES + 1));
    assert_eq!(DIRECT_UPLOAD_THRESHOLD_BYTES, 8 * 1024 * 1024);
}
