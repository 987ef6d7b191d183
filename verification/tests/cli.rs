use hypertide::cli::client::{apply_token_pair, credential, token_expired, token_health, Credential, TokenHealth};
use hypertide::cli::models::{
    default_branch, ApiError, ApiResponse, AssetDelta, AssetStatusKind, CliProfile, StageFile, TokenPair,
    WorkspaceFile, WorkspaceState,
};
use hypertide::cli::status::{
    api_error_message, asset_paths, checkpoint_assets_to_deltas, classify_asset_status, collect_asset_rows,
    normalize_asset_path, resolve_repo, submit_error_message, summarize_body, switch_repo, upsert_stage_asset,
};
use hypertide::session::CheckpointAsset;

#[test]
fn classify_status_prefers_staged_and_stale_base_signals() {
    assert_eq!(
        classify_asset_status(Some("base"), Some("local"), Some("next"), None, false),
        AssetStatusKind::Staged
    );
    assert_eq!(
        classify_asset_status(Some("base"), Some("base"), None, None, true),
        AssetStatusKind::StaleBase
    );
}

#[test]
fn classify_status_covers_modified_added_and_deleted() {
    assert_eq!(
        classify_asset_status(Some("base"), Some("other"), None, None, false),
        AssetStatusKind::Modified
    );
    assert_eq!(
        classify_asset_status(None, Some("new"), None, None, false),
        AssetStatusKind::Added
    );
    assert_eq!(
        classify_asset_status(Some("base"), None, None, None, false),
        AssetStatusKind::Deleted
    );
}

#[test]
fn classify_status_reports_locks_and_unchanged_files() {
    assert_eq!(
        classify_asset_status(Some("base"), Some("base"), None, Some("bob"), true),
        AssetStatusKind::LockedByOther
    );
    assert_eq!(
        classify_asset_status(Some("base"), Some("base"), None, None, false),
        AssetStatusKind::Unmodified
    );
    assert_eq!(classify_asset_status(None, None, None, None, false), AssetStatusKind::Unmodified);
    assert_eq!(AssetStatusKind::LockedByOther.as_str(), "locked_by_other");
    assert_eq!(AssetStatusKind::StaleBase.as_str(), "stale_base");
    assert_eq!(AssetStatusKind::Unmodified.as_str(), "unmodified");
}

fn profile() -> CliProfile {
    CliProfile {
        server: "http://localhost".to_string(),
        api_key: "key".to_string(),
        api_key_direct: false,
        access_token: None,
        refresh_token: None,
        access_token_expires_at: None,
        current_repo: None,
        current_branch: default_branch(),
    }
}

#[test]
fn tokens_are_renewed_near_their_expiry() {
    let mut p = profile();
    assert!(token_expired(&p, 0));
    apply_token_pair(
        &mut p,
        TokenPair {
            access_token: "a".to_string(),
            refresh_token: "r".to_string(),
            token_type: "Bearer".to_string(),
            expires_in: 900,
        },
        1_000,
    );
    assert_eq!(p.access_token.as_deref(), Some("a"));
    assert_eq!(p.refresh_token.as_deref(), Some("r"));
    assert_eq!(p.access_token_expires_at, Some(1_900));
    assert!(!token_expired(&p, 1_869));
    assert!(token_expired(&p, 1_870));
}

#[test]
fn negative_lifetimes_expire_at_once() {
    let mut p = profile();
    apply_token_pair(
        &mut p,
        TokenPair {
            access_token: "a".to_string(),
            refresh_token: "r".to_string(),
            token_type: "Bearer".to_string(),
            expires_in: -50,
        },
        500,
    );
    assert_eq!(p.access_token_expires_at, Some(500));
    assert!(token_expired(&p, 500));
    p.access_token_expires_at = Some(i64::MIN + 5);
    assert!(token_expired(&p, i64::MIN));
}

#[test]
fn credentials_prefer_the_access_token() {
    let mut p = profile();
    assert_eq!(credential(&p), Credential::ApiKey("key".to_string()));
    p.access_token = Some("tok".to_string());
    assert_eq!(credential(&p), Credential::Bearer("tok".to_string()));
    p.api_key_direct = true;
    assert_eq!(credential(&p), Credential::ApiKey("key".to_string()));
}

#[test]
fn stage_upsert_updates_or_appends() {
    let mut stage = StageFile::default_for_branch("main");
    upsert_stage_asset(&mut stage, "a.txt", Some("h1".to_string()));
    upsert_stage_asset(&mut stage, "b.txt", None);
    upsert_stage_asset(&mut stage, "a.txt", Some("h2".to_string()));
    assert_eq!(stage.assets.len(), 2);
    assert_eq!(stage.assets[0].path, "a.txt");
    assert_eq!(stage.assets[0].blob_hash.as_deref(), Some("h2"));
    assert_eq!(stage.assets[1].blob_hash, None);
    assert_eq!(stage.branch, "main");
}

fn workspace() -> WorkspaceState {
    WorkspaceState {
        repo_id: "repo-a".to_string(),
        branch: "main".to_string(),
        workspace_root: "/w".to_string(),
        base_changeset_id: Some("ROOT".to_string()),
        checked_out_assets: vec![
            WorkspaceFile { path: "b.txt".to_string(), blob_hash: "hb".to_string() },
            WorkspaceFile { path: "a.txt".to_string(), blob_hash: "ha".to_string() },
        ],
        last_synced_at: 0,
    }
}

#[test]
fn status_rows_cover_checked_out_and_staged_paths() {
    let ws = workspace();
    let mut stage = StageFile::default_for_branch("main");
    upsert_stage_asset(&mut stage, "c.txt", Some("hc".to_string()));
    upsert_stage_asset(&mut stage, "a.txt", None);
    let paths = asset_paths(&ws, &stage);
    assert_eq!(paths, vec!["a.txt".to_string(), "b.txt".to_string(), "c.txt".to_string()]);
    let local = vec![None, Some("hb".to_string()), Some("hc".to_string())];
    let rows = collect_asset_rows(&ws, &stage, paths, local);
    assert_eq!(rows.len(), 3);
    assert_eq!(rows[0].base_hash.as_deref(), Some("ha"));
    assert_eq!(rows[0].staged_hash, None);
    assert_eq!(rows[1].local_hash.as_deref(), Some("hb"));
    assert_eq!(rows[2].base_hash, None);
    assert_eq!(rows[2].staged_hash.as_deref(), Some("hc"));
}

#[test]
fn asset_paths_use_forward_slashes() {
    assert_eq!(normalize_asset_path("Assets\\Maps\\level.bin"), "Assets/Maps/level.bin");
    assert_eq!(normalize_asset_path("plain.txt"), "plain.txt");
}

#[test]
fn checkpoint_assets_become_staged_changes() {
    let assets = vec![CheckpointAsset {
        asset_id: "id".to_string(),
        path: "Assets/a.txt".to_string(),
        blob_hash: "h".to_string(),
    }];
    let deltas: Vec<AssetDelta> = checkpoint_assets_to_deltas(&assets);
    assert_eq!(deltas.len(), 1);
    assert_eq!(deltas[0].path, "Assets/a.txt");
    assert_eq!(deltas[0].blob_hash.as_deref(), Some("h"));
}

#[test]
fn bodies_are_summarised() {
    assert_eq!(summarize_body("  \n "), "<empty>");
    assert_eq!(summarize_body(" line one\nline two "), "line one line two");
    let long = "x".repeat(250);
    let summary = summarize_body(&long);
    assert_eq!(summary.chars().count(), 203);
    assert!(summary.ends_with("..."));
    let exact = "é".repeat(200);
    assert_eq!(summarize_body(&exact), exact);
}

#[test]
fn repository_comes_from_the_argument_or_the_profile() {
    let mut p = profile();
    assert_eq!(
        resolve_repo(&p, None).unwrap_err(),
        "repo not set. pass --repo or run login with --repo".to_string()
    );
    p.current_repo = Some("repo-p".to_string());
    assert_eq!(resolve_repo(&p, None).unwrap(), "repo-p");
    assert_eq!(resolve_repo(&p, Some("other")).unwrap(), "other");
}

fn failed(code: &str, message: &str) -> ApiResponse<()> {
    ApiResponse {
        success: false,
        data: None,
        error: Some(ApiError {
            code: code.to_string(),
            message: message.to_string(),
            request_id: "req-1".to_string(),
        }),
    }
}

#[test]
fn error_messages_name_the_cause() {
    assert_eq!(
        api_error_message(&failed("conflict", "boom"), "fallback"),
        "[conflict] boom (request_id=req-1)"
    );
    let empty: ApiResponse<()> = ApiResponse { success: false, data: None, error: None };
    assert_eq!(api_error_message(&empty, "fallback"), "fallback");
    assert_eq!(submit_error_message(&empty), "submit failed");
    assert_eq!(
        submit_error_message(&failed("conflict", "Lock conflict on a. owner=b")),
        "submit failed: lock conflict: [conflict] Lock conflict on a. owner=b (request_id=req-1)"
    );
    assert!(submit_error_message(&failed("conflict", "base_changeset_id mismatch for r/main"))
        .starts_with("submit failed: stale base snapshot: "));
    assert!(submit_error_message(&failed("bad", "Blob not found: h")).starts_with("submit failed: missing blob: "));
    assert!(submit_error_message(&failed("FORBIDDEN", "no")).starts_with("submit failed: authentication/authorization error: "));
    assert_eq!(submit_error_message(&failed("x", "other")), "[x] other (request_id=req-1)");
}

#[test]
fn switching_repository_checks_branch_and_stage() {
    let mut p = profile();
    let branches = vec!["main".to_string(), "dev".to_string()];
    assert_eq!(
        switch_repo(&mut p, "repo-x", &branches, "feature", false, None).unwrap_err(),
        "branch not found: feature"
    );
    assert_eq!(
        switch_repo(&mut p, "repo-x", &branches, "dev", false, Some(2)).unwrap_err(),
        "current workspace has 2 staged modification(s). run `ht submit` first or use `--force` to clear the staging area"
    );
    assert!(p.current_repo.is_none());
    let stage = switch_repo(&mut p, "repo-x", &branches, "dev", true, Some(2)).expect("forced");
    assert_eq!(stage.branch, "dev");
    assert!(stage.assets.is_empty());
    assert_eq!(p.current_repo.as_deref(), Some("repo-x"));
    assert_eq!(p.current_branch, "dev");
    assert!(switch_repo(&mut p, "repo-y", &branches, "main", false, Some(0)).is_ok());
}

#[test]
fn token_health_reports_expiry() {
    let mut p = profile();
    p.api_key_direct = true;
    assert_eq!(token_health(&p, 1_000), TokenHealth::Unchecked);
    p.api_key_direct = false;
    p.access_token_expires_at = None;
    assert_eq!(token_health(&p, 1_000), TokenHealth::Expired);
    p.access_token_expires_at = Some(1_020);
    assert_eq!(token_health(&p, 1_000), TokenHealth::Expired);
    p.access_token_expires_at = Some(1_100);
    assert_eq!(token_health(&p, 1_000), TokenHealth::ExpiresSoon(100));
    p.access_token_expires_at = Some(2_000);
    assert_eq!(token_health(&p, 1_000), TokenHealth::Valid(1_000));
}
