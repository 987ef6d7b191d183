//! The client's side of sessions and checkpoints: which session a save
//! goes to, which assets a checkpoint records, and the draft that a branch
//! made from a checkpoint starts with.
use vstd::prelude::*;
use crate::cli::models::{AssetDelta, StageFile};
use crate::cli::status::{checkpoint_assets_to_deltas, deltas_view};
use crate::digest::{blake3_hex, hash_bytes};
use crate::session::{CheckpointAsset, CheckpointSnapshot};
use crate::text::text_concat;
use crate::versioning::model::{opt_str, ROOT_BASE_CHANGESET_ID};

verus! {

/// The session that the client's saves go to, as it keeps it.
#[derive(Debug)]
pub struct SessionState {
    pub current_session_id: Option<String>,
}

impl Default for SessionState {
    fn default() -> (r: Self)
        ensures
            r.current_session_id is None,
    {
        SessionState { current_session_id: None }
    }
}

/// The session a save goes to without asking the server for a new one: the
/// one requested, else the one kept; `None` when a new one must be opened.
pub fn known_session(requested: Option<&str>, kept: Option<SessionState>) -> (r: Option<String>)
    ensures
        opt_str(r) == match requested {
            Some(s) => Some(s@),
            None => match kept {
                Some(k) => opt_str(k.current_session_id),
                None => None,
            },
        },
{
    match requested {
        Some(s) => Some(s.to_owned()),
        None => match kept {
            Some(k) => k.current_session_id,
            None => None,
        },
    }
}

/// The changeset a new session starts from: the workspace's, else the
/// staging area's.
pub fn session_base(workspace_base: Option<String>, stage_base: Option<String>) -> (r: Option<String>)
    ensures
        r == match workspace_base {
            Some(b) => Some(b),
            None => stage_base,
        },
{
    match workspace_base {
        Some(b) => Some(b),
        None => stage_base,
    }
}

/// A checkpoint asset as its id, path and hash.
pub open spec fn asset_view(a: CheckpointAsset) -> (Seq<char>, Seq<char>, Seq<char>) {
    (a.asset_id@, a.path@, a.blob_hash@)
}

/// The assets that a checkpoint of the staging area `assets` records: each
/// staged change that sets content, under its path as id; staged deletions
/// are left out.
pub open spec fn staged_snapshot(assets: Seq<AssetDelta>) -> Seq<(Seq<char>, Seq<char>, Seq<char>)>
    decreases assets.len(),
{
    if assets.len() == 0 {
        Seq::empty()
    } else {
        let rest = staged_snapshot(assets.drop_last());
        let a = assets.last();
        match a.blob_hash {
            Some(h) => rest.push((a.path@, a.path@, h@)),
            None => rest,
        }
    }
}

/// The assets that a checkpoint of the staging area records.
pub fn staged_checkpoint_assets(stage: &StageFile) -> (r: Vec<CheckpointAsset>)
    ensures
        r@.map_values(|a: CheckpointAsset| asset_view(a)) == staged_snapshot(stage.assets@),
{
    let mut r: Vec<CheckpointAsset> = Vec::new();
    let mut i: usize = 0;
    while i < stage.assets.len()
        invariant
            i <= stage.assets@.len(),
            r@.map_values(|a: CheckpointAsset| asset_view(a)) == staged_snapshot(stage.assets@.take(i as int)),
        decreases stage.assets@.len() - i,
    {
        let ghost before = r@;
        proof {
            assert(stage.assets@.take(i + 1).drop_last() =~= stage.assets@.take(i as int));
            assert(stage.assets@.take(i + 1).last() == stage.assets@[i as int]);
        }
        match &stage.assets[i].blob_hash {
            Some(h) => {
                let path = stage.assets[i].path.clone();
                r.push(CheckpointAsset { asset_id: path.clone(), path, blob_hash: h.clone() });
                assert(r@.map_values(|a: CheckpointAsset| asset_view(a)) =~= before.map_values(
                    |a: CheckpointAsset| asset_view(a),
                ).push(asset_view(r@[before.len() as int])));
            },
            None => {},
        }
        i = i + 1;
    }
    proof {
        assert(stage.assets@.take(stage.assets@.len() as int) =~= stage.assets@);
    }
    r
}

/// The asset of a checkpoint of the workspace for the file at `path`, whose
/// content on disk is `content`.
pub fn workspace_checkpoint_asset(path: &str, content: &[u8]) -> (r: CheckpointAsset)
    ensures
        r.asset_id@ == path@,
        r.path@ == path@,
        r.blob_hash@ == blake3_hex(content@),
{
    CheckpointAsset { asset_id: path.to_owned(), path: path.to_owned(), blob_hash: hash_bytes(content) }
}

/// What a branch made from a checkpoint starts with: a draft on the
/// checkpoint's base (`ROOT` when it has none) with its assets.
#[derive(Debug)]
pub struct CheckpointDraft {
    pub base_changeset_id: String,
    pub message: String,
    pub assets: Vec<AssetDelta>,
}

/// The draft that a branch made from `snapshot` starts with.
pub fn checkpoint_draft(snapshot: &CheckpointSnapshot) -> (r: CheckpointDraft)
    ensures
        r.base_changeset_id@ == match snapshot.base_changeset_id {
            Some(b) => b@,
            None => ROOT_BASE_CHANGESET_ID@,
        },
        r.message@ == "draft from checkpoint "@ + snapshot.checkpoint_id@,
        deltas_view(r.assets@) == snapshot.assets@.map_values(|a: CheckpointAsset| (a.path@, Some(a.blob_hash@))),
{
    let base_changeset_id = match &snapshot.base_changeset_id {
        Some(b) => b.clone(),
        None => ROOT_BASE_CHANGESET_ID.to_owned(),
    };
    let message = text_concat("draft from checkpoint ", snapshot.checkpoint_id.as_str());
    CheckpointDraft { base_changeset_id, message, assets: checkpoint_assets_to_deltas(&snapshot.assets) }
}

} // verus!
