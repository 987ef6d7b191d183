//! The bodies and queries of the HTTP API, and the answers it sends.
use vstd::prelude::*;
use crate::versioning::model::{AssetDelta, BranchRecord, ChangesetRecord, SnapshotEntry};

verus! {

/// The answer to a key check.
#[derive(Debug)]
pub struct VerifyResponse {
    pub valid: bool,
    pub owner_id: Option<String>,
    pub permissions: Vec<String>,
}

/// A request for a new API key.
#[derive(Debug)]
pub struct GenerateKeyRequest {
    pub owner_id: String,
    pub permissions: Vec<String>,
    pub expires_in_days: Option<i64>,
}

/// A new API key; its expiry is written in RFC 3339.
#[derive(Debug)]
pub struct GenerateKeyResponse {
    pub key: String,
    pub owner_id: String,
    pub permissions: Vec<String>,
    pub expires_at: Option<String>,
}

/// A request to revoke a key.
#[derive(Debug)]
pub struct RevokeKeyRequest {
    pub key: String,
}

/// A key as the listing shows it: only the start of its text, and its times in RFC 3339.
#[derive(Debug)]
pub struct KeyListItem {
    pub key_prefix: String,
    pub owner_id: String,
    pub permissions: Vec<String>,
    pub created_at: String,
    pub expires_at: Option<String>,
    pub revoked: bool,
}

#[derive(Debug)]
pub struct LockRequest {
    pub file_path: String,
    /// The owner the request acts for; the caller's own when absent.
    pub owner_id: Option<String>,
}

#[derive(Debug)]
pub struct UnlockRequest {
    pub file_path: String,
    pub owner_id: String,
}

#[derive(Debug)]
pub struct RenewLockRequest {
    pub file_path: String,
    pub owner_id: String,
}

#[derive(Debug)]
pub struct ForceUnlockRequest {
    pub file_path: String,
}

/// A stored upload.
#[derive(Debug)]
pub struct UploadResponse {
    pub hash: String,
    pub size_bytes: u64,
    pub original_path: String,
}

#[derive(Debug)]
pub struct HashQuery {
    pub hash: String,
}

/// Data to hash, in standard Base64.
#[derive(Debug)]
pub struct HashRequest {
    pub data: String,
}

#[derive(Debug)]
pub struct HashResponse {
    pub hash: String,
}

#[derive(Debug)]
pub struct CreateBranchRequest {
    pub repo_id: String,
    pub branch: String,
    pub from_changeset_id: Option<String>,
}

#[derive(Debug)]
pub struct BranchListResponse {
    pub repo_id: String,
    pub branches: Vec<BranchRecord>,
}

#[derive(Debug)]
pub struct SubmitChangesetRequest {
    pub repo_id: String,
    pub branch: Option<String>,
    pub base_changeset_id: Option<String>,
    pub kind: Option<String>,
    pub rollback_of: Option<String>,
    pub author: String,
    pub message: String,
    pub assets: Vec<AssetDelta>,
}

#[derive(Debug)]
pub struct HistoryQuery {
    pub branch: Option<String>,
    pub limit: Option<usize>,
    pub cursor: Option<usize>,
}

#[derive(Debug)]
pub struct RollbackRequest {
    pub repo_id: String,
    pub branch: String,
    pub target_changeset_id: String,
    pub author: String,
    pub message: Option<String>,
}

/// What a rollback did: the base it started from, the changeset it
/// restored, and how many assets it changed.
#[derive(Debug)]
pub struct RollbackPlanView {
    pub base_changeset_id: String,
    pub target_changeset_id: String,
    pub asset_count: usize,
}

#[derive(Debug)]
pub struct RollbackResponse {
    pub rollback_plan: RollbackPlanView,
    pub changeset: ChangesetRecord,
}

#[derive(Debug)]
pub struct SyncQuery {
    pub branch: Option<String>,
    pub to_changeset_id: Option<String>,
}

#[derive(Debug)]
pub struct SyncResponse {
    pub repo_id: String,
    pub branch: String,
    pub changeset_id: Option<String>,
    pub assets: Vec<SnapshotEntry>,
}

#[derive(Debug)]
pub struct AttestRequest {
    pub witness_id: Option<String>,
}

#[derive(Debug)]
pub struct WitnessSummaryQuery {
    pub checkpoint_id: String,
}

#[derive(Debug)]
pub struct AuditExportQuery {
    pub limit: Option<i64>,
    pub before_seq: Option<i64>,
    pub action: Option<String>,
    pub actor_id: Option<String>,
}

} // verus!
