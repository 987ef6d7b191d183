//! The commands of the `ht` client and their arguments, as the command line
//! gives them.
use vstd::prelude::*;

verus! {

/// A parsed command line.
#[derive(Debug)]
pub struct Cli {
    pub command: Command,
}

/// The commands of the client.
#[derive(Debug)]
pub enum Command {
    Login(LoginArgs),
    Branch(BranchArgs),
    Add(AddArgs),
    Remove(RemoveArgs),
    Save(SaveArgs),
    Checkpoint(CheckpointArgs),
    Submit(SubmitArgs),
    Log(LogArgs),
    Rollback(RollbackArgs),
    Sync(SyncArgs),
    Checkout(CheckoutArgs),
    Status(StatusArgs),
    Diff(DiffArgs),
    ChunkUpload(ChunkUploadArgs),
    Doctor(DoctorArgs),
}

/// `ht login`: the server, the API key, whether requests carry the key
/// itself rather than tokens, and the repository and branch to work on
/// (`main` by default).
#[derive(Debug)]
pub struct LoginArgs {
    pub server: String,
    pub token: String,
    pub api_key_direct: bool,
    pub repo: Option<String>,
    pub branch: String,
}

/// `ht branch`.
#[derive(Debug)]
pub struct BranchArgs {
    pub command: BranchCommand,
}

/// The branch commands.
#[derive(Debug)]
pub enum BranchCommand {
    Create(BranchCreateArgs),
    List(BranchListArgs),
    Switch(BranchSwitchArgs),
}

/// `ht branch create`: a branch of a repository, from a changeset or the
/// default branch's head.
#[derive(Debug)]
pub struct BranchCreateArgs {
    pub repo: String,
    pub name: String,
    pub from: Option<String>,
}

/// `ht branch list`.
#[derive(Debug)]
pub struct BranchListArgs {
    pub repo: String,
}

/// `ht branch switch`.
#[derive(Debug)]
pub struct BranchSwitchArgs {
    pub repo: String,
    pub name: String,
}

/// `ht add`: a path and the hash of its new content, or a local file to
/// upload (under `asset_path` if given).
#[derive(Debug)]
pub struct AddArgs {
    pub path: Option<String>,
    pub blob: Option<String>,
    pub file: Option<String>,
    pub asset_path: Option<String>,
    pub branch: Option<String>,
}

/// `ht remove`: stages the deletion of a path.
#[derive(Debug)]
pub struct RemoveArgs {
    pub asset_path: String,
    pub branch: Option<String>,
}

/// `ht submit` (message `submit` by default), of the staging area or of a
/// checkpoint, with a visibility.
#[derive(Debug)]
pub struct SubmitArgs {
    pub repo: Option<String>,
    pub branch: Option<String>,
    pub message: String,
    pub visibility: Option<String>,
    pub from_checkpoint: Option<String>,
}

/// `ht save`: saves the progress of the workspace as a checkpoint of a
/// session.
#[derive(Debug)]
pub struct SaveArgs {
    pub repo: Option<String>,
    pub branch: Option<String>,
    pub session: Option<String>,
    pub message: Option<String>,
}

/// `ht checkpoint`.
#[derive(Debug)]
pub struct CheckpointArgs {
    pub command: CheckpointCommand,
}

/// The checkpoint commands.
#[derive(Debug)]
pub enum CheckpointCommand {
    Create(CheckpointCreateArgs),
    Restore(CheckpointRestoreArgs),
    Branch(CheckpointBranchArgs),
}

/// `ht checkpoint create`.
#[derive(Debug)]
pub struct CheckpointCreateArgs {
    pub repo: Option<String>,
    pub branch: Option<String>,
    pub session: Option<String>,
    pub message: Option<String>,
}

/// `ht checkpoint restore`.
#[derive(Debug)]
pub struct CheckpointRestoreArgs {
    pub id: String,
}

/// `ht checkpoint branch`: a new branch holding a checkpoint as a draft.
#[derive(Debug)]
pub struct CheckpointBranchArgs {
    pub id: String,
    pub name: String,
}

/// `ht log` (20 entries by default).
#[derive(Debug)]
pub struct LogArgs {
    pub repo: Option<String>,
    pub branch: Option<String>,
    pub limit: usize,
}

/// `ht rollback --to`.
#[derive(Debug)]
pub struct RollbackArgs {
    pub repo: Option<String>,
    pub branch: Option<String>,
    pub target_changeset_id: String,
    pub author: Option<String>,
    pub message: Option<String>,
}

/// `ht sync`, to the head or to a changeset.
#[derive(Debug)]
pub struct SyncArgs {
    pub repo: Option<String>,
    pub branch: Option<String>,
    pub to_changeset_id: Option<String>,
}

/// `ht checkout`, of the head or of a changeset.
#[derive(Debug)]
pub struct CheckoutArgs {
    pub repo: Option<String>,
    pub branch: Option<String>,
    pub to_changeset_id: Option<String>,
}

/// `ht status`.
#[derive(Debug)]
pub struct StatusArgs {
    pub repo: Option<String>,
    pub branch: Option<String>,
}

/// `ht diff`.
#[derive(Debug)]
pub struct DiffArgs {
    pub repo: Option<String>,
    pub branch: Option<String>,
}

/// `ht chunk-upload`: a file, the size of its chunks (4 MiB by default),
/// the name of that policy, and whether only the manifest is made.
#[derive(Debug)]
pub struct ChunkUploadArgs {
    pub file: String,
    pub chunk_size: usize,
    pub chunk_size_policy: String,
    pub manifest_only: bool,
}

/// `ht doctor`: checks the login, the server, the workspace and the staging
/// area.
#[derive(Debug)]
pub struct DoctorArgs {}

} // verus!
