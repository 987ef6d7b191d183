use hypertide::cli::checkpoint::{
    checkpoint_draft, known_session, session_base, staged_checkpoint_assets, workspace_checkpoint_asset, SessionState,
};
use hypertide::cli::models::{AssetDelta, StageFile};
use hypertide::session::{CheckpointAsset, CheckpointSnapshot};

#[test]
fn a_requested_session_wins_over_the_kept_one() {
    let kept = SessionState { current_session_id: Some("kept".to_string()) };
    assert_eq!(known_session(Some("asked"), Some(kept)).as_deref(), Some("asked"));
    let kept = SessionState { current_session_id: Some("kept".to_string()) };
    assert_eq!(known_session(None, Some(kept)).as_deref(), Some("kept"));
    assert!(known_session(None, Some(SessionState::default())).is_none());
    assert!(known_session(None, None).is_none());
}

#[test]
fn a_new_session_starts_from_the_workspace_base() {
    assert_eq!(session_base(Some("w".to_string()), Some("s".to_string())).as_deref(), Some("w"));
    assert_eq!(session_base(None, Some("s".to_string())).as_deref(), Some("s"));
    assert!(session_base(None, None).is_none());
}

#[test]
fn staged_deletions_are_not_checkpointed() {
    let stage = StageFile {
        branch: "main".to_string(),
        base_changeset_id: None,
        assets: vec![
            AssetDelta { path: "a.txt".to_string(), blob_hash: Some("h1".to_string()) },
            AssetDelta { path: "gone.txt".to_string(), blob_hash: None },
            AssetDelta { path: "b.txt".to_string(), blob_hash: Some("h2".to_string()) },
        ],
    };
    let assets = staged_checkpoint_assets(&stage);
    assert_eq!(
        assets,
        vec![
            CheckpointAsset { asset_id: "a.txt".to_string(), path: "a.txt".to_string(), blob_hash: "h1".to_string() },
            CheckpointAsset { asset_id: "b.txt".to_string(), path: "b.txt".to_string(), blob_hash: "h2".to_string() },
        ]
    );
}

#[test]
fn workspace_assets_carry_the_hash_of_their_content() {
    let asset = workspace_checkpoint_asset("Assets/a.txt", b"changed");
    assert_eq!(asset.asset_id, "Assets/a.txt");
    assert_eq!(asset.path, "Assets/a.txt");
    assert_eq!(asset.blob_hash, blake3::hash(b"changed").to_hex().to_string());
}

#[test]
fn a_checkpoint_branch_starts_as_a_draft_of_its_assets() {
    let snapshot = CheckpointSnapshot {
        checkpoint_id: "ckpt-9".to_string(),
        session_id: "sess".to_string(),
        repo_id: "repo".to_string(),
        branch: "main".to_string(),
        base_changeset_id: None,
        workspace_root: "/w".to_string(),
        assets: vec![CheckpointAsset {
            asset_id: "x".to_string(),
            path: "p.txt".to_string(),
            blob_hash: "h".to_string(),
        }],
    };
    let draft = checkpoint_draft(&snapshot);
    assert_eq!(draft.base_changeset_id, "ROOT");
    assert_eq!(draft.message, "draft from checkpoint ckpt-9");
    assert_eq!(draft.assets.len(), 1);
    assert_eq!(draft.assets[0].path, "p.txt");
    assert_eq!(draft.assets[0].blob_hash.as_deref(), Some("h"));
}
