//! The records that the client keeps on disk and exchanges with the server.
use vstd::prelude::*;
use crate::versioning::model::clone_opt_string;

verus! {

/// The branch that a profile starts on.
pub const DEFAULT_BRANCH: &'static str = "main";

/// The branch that a profile starts on.
pub fn default_branch() -> (r: String)
    ensures
        r@ == DEFAULT_BRANCH@,
{
    DEFAULT_BRANCH.to_owned()
}

/// The login of the client: the server, the credentials, and the current
/// repository and branch. Expiry times are in seconds since the Unix epoch.
#[derive(Debug)]
pub struct CliProfile {
    pub server: String,
    pub api_key: String,
    pub api_key_direct: bool,
    pub access_token: Option<String>,
    pub refresh_token: Option<String>,
    pub access_token_expires_at: Option<i64>,
    pub current_repo: Option<String>,
    pub current_branch: String,
}

/// One staged change: the new content of a path, or its deletion.
#[derive(Debug)]
pub struct AssetDelta {
    pub path: String,
    pub blob_hash: Option<String>,
}

impl Clone for AssetDelta {
    fn clone(&self) -> (r: Self)
        ensures
            r == *self,
    {
        AssetDelta { path: self.path.clone(), blob_hash: clone_opt_string(&self.blob_hash) }
    }
}

/// The staging area of a branch.
#[derive(Debug)]
pub struct StageFile {
    pub branch: String,
    pub base_changeset_id: Option<String>,
    pub assets: Vec<AssetDelta>,
}

impl Default for StageFile {
    fn default() -> (r: Self)
        ensures
            r.branch@ == Seq::<char>::empty(),
            r.base_changeset_id is None,
            r.assets@.len() == 0,
    {
        StageFile { branch: String::new(), base_changeset_id: None, assets: Vec::new() }
    }
}

impl StageFile {
    /// An empty staging area for `branch`.
    pub fn default_for_branch(branch: &str) -> (r: Self)
        ensures
            r.branch@ == branch@,
            r.base_changeset_id is None,
            r.assets@.len() == 0,
    {
        StageFile { branch: branch.to_owned(), base_changeset_id: None, assets: Vec::new() }
    }
}

/// A file as it was checked out.
#[derive(Debug)]
pub struct WorkspaceFile {
    pub path: String,
    pub blob_hash: String,
}

impl Default for WorkspaceFile {
    fn default() -> (r: Self)
        ensures
            r.path@ == Seq::<char>::empty(),
            r.blob_hash@ == Seq::<char>::empty(),
    {
        WorkspaceFile { path: String::new(), blob_hash: String::new() }
    }
}

/// The last checkout of the workspace (its time in seconds since the Unix epoch).
#[derive(Debug)]
pub struct WorkspaceState {
    pub repo_id: String,
    pub branch: String,
    pub workspace_root: String,
    pub base_changeset_id: Option<String>,
    pub checked_out_assets: Vec<WorkspaceFile>,
    pub last_synced_at: i64,
}

/// The state of an asset in the workspace.
#[derive(Debug, PartialEq, Eq, Structural, Clone, Copy)]
pub enum AssetStatusKind {
    Unmodified,
    Modified,
    Added,
    Deleted,
    Staged,
    LockedByOther,
    StaleBase,
}

impl AssetStatusKind {
    pub open spec fn name(self) -> Seq<char> {
        match self {
            AssetStatusKind::Unmodified => "unmodified"@,
            AssetStatusKind::Modified => "modified"@,
            AssetStatusKind::Added => "added"@,
            AssetStatusKind::Deleted => "deleted"@,
            AssetStatusKind::Staged => "staged"@,
            AssetStatusKind::LockedByOther => "locked_by_other"@,
            AssetStatusKind::StaleBase => "stale_base"@,
        }
    }

    /// The name of the state.
    pub fn as_str(&self) -> (r: &'static str)
        ensures
            r@ == self.name(),
    {
        match self {
            AssetStatusKind::Unmodified => "unmodified",
            AssetStatusKind::Modified => "modified",
            AssetStatusKind::Added => "added",
            AssetStatusKind::Deleted => "deleted",
            AssetStatusKind::Staged => "staged",
            AssetStatusKind::LockedByOther => "locked_by_other",
            AssetStatusKind::StaleBase => "stale_base",
        }
    }
}

/// Tokens issued by the server; `expires_in` is the lifetime of the access
/// token in seconds.
#[derive(Debug)]
pub struct TokenPair {
    pub access_token: String,
    pub refresh_token: String,
    pub token_type: String,
    pub expires_in: i64,
}

/// A lock as the server lists it.
#[derive(Debug)]
pub struct FileLockInfo {
    pub file_path: String,
    pub owner_id: String,
    pub locked_at: String,
    pub lease_expires_at: Option<String>,
}

/// A request to compose a blob from the chunks of a manifest.
#[derive(Debug)]
pub struct ComposeBlobRequest<'a> {
    pub manifest_hash: &'a str,
}

/// The blob that a manifest composed.
#[derive(Debug)]
pub struct ComposeBlobResponse {
    pub blob_hash: String,
    pub size_bytes: u64,
}

/// The error part of a server answer.
#[derive(Debug)]
pub struct ApiError {
    pub code: String,
    pub message: String,
    pub request_id: String,
}

/// A server answer.
#[derive(Debug)]
pub struct ApiResponse<T> {
    pub success: bool,
    pub data: Option<T>,
    pub error: Option<ApiError>,
}

} // verus!
