//! The decisions of the client's commands: which staging area a branch uses,
//! what a submission sends, what a branch's head is, and how a file is cut
//! into chunks for upload.
use vstd::prelude::*;
use crate::cli::models::{AssetDelta, StageFile, WorkspaceState, FileLockInfo};
use crate::cli::status::{deltas_view, checkpoint_assets_to_deltas};
use crate::session::{CheckpointAsset, CheckpointSnapshot};
use crate::versioning::model::{BranchRecord, ROOT_BASE_CHANGESET_ID, opt_str, clone_opt_string, strings_view};
use crate::versioning::repo::contains_str;
use crate::digest::{blake3_hex, hash_bytes};
use crate::text::str_eq;

verus! {

/// The staging area that a command on `branch` works with: the one kept, if
/// it belongs to that branch, or an empty one.
pub fn stage_for_branch(kept: Option<StageFile>, branch: &str) -> (r: StageFile)
    ensures
        match kept {
            Some(s) => if s.branch@ == branch@ {
                r == s
            } else {
                r.branch@ == branch@ && r.base_changeset_id is None && r.assets@.len() == 0
            },
            None => r.branch@ == branch@ && r.base_changeset_id is None && r.assets@.len() == 0,
        },
{
    match kept {
        Some(s) => if str_eq(s.branch.as_str(), branch) {
            s
        } else {
            StageFile::default_for_branch(branch)
        },
        None => StageFile::default_for_branch(branch),
    }
}

/// What a submission sends: its changes, the base it names unless the server
/// is asked, its visibility, and the session and checkpoint it comes from.
#[derive(Debug)]
pub struct SubmitPlan {
    pub assets: Vec<AssetDelta>,
    pub base_hint: Option<String>,
    pub visibility: Option<String>,
    pub session_id: Option<String>,
    pub checkpoint_id: Option<String>,
}

/// The changes of a checkpoint, in order.
pub open spec fn checkpoint_changes(assets: Seq<CheckpointAsset>) -> Seq<(Seq<char>, Option<Seq<char>>)> {
    assets.map_values(|a: CheckpointAsset| (a.path@, Some(a.blob_hash@)))
}

/// The plan of a submission from the staging area `stage`, or from the
/// snapshot of a checkpoint: the checkpoint's assets when it has any, else
/// the staged ones; refused when there is nothing to submit. A submission from
/// a checkpoint is a draft unless a visibility is given.
pub fn plan_submission(stage: &StageFile, checkpoint: Option<&CheckpointSnapshot>, visibility: Option<&str>) -> (r:
    Result<SubmitPlan, String>)
    ensures
        ({
            let from_checkpoint = match checkpoint {
                Some(c) => checkpoint_changes(c.assets@),
                None => Seq::empty(),
            };
            let changes = if from_checkpoint.len() == 0 {
                deltas_view(stage.assets@)
            } else {
                from_checkpoint
            };
            match r {
                Err(e) => changes.len() == 0 && e@ == "nothing staged; use `ht add --path --blob` first"@,
                Ok(p) => {
                    &&& changes.len() > 0
                    &&& deltas_view(p.assets@) == changes
                    &&& opt_str(p.base_hint) == match checkpoint {
                        Some(c) if c.base_changeset_id is Some => opt_str(c.base_changeset_id),
                        _ => opt_str(stage.base_changeset_id),
                    }
                    &&& opt_str(p.visibility) == match visibility {
                        Some(v) => Some(v@),
                        None => if checkpoint is Some {
                            Some("draft"@)
                        } else {
                            None
                        },
                    }
                    &&& opt_str(p.session_id) == match checkpoint {
                        Some(c) => Some(c.session_id@),
                        None => None,
                    }
                    &&& opt_str(p.checkpoint_id) == match checkpoint {
                        Some(c) => Some(c.checkpoint_id@),
                        None => None,
                    }
                },
            }
        }),
{
    let from_checkpoint: Vec<AssetDelta> = match checkpoint {
        Some(c) => checkpoint_assets_to_deltas(&c.assets),
        None => Vec::new(),
    };
    proof {
        assert(deltas_view(from_checkpoint@) =~= match checkpoint {
            Some(c) => checkpoint_changes(c.assets@),
            None => Seq::empty(),
        });
    }
    let assets = if from_checkpoint.len() == 0 {
        crate::cli::status::clone_stage_assets(&stage.assets)
    } else {
        from_checkpoint
    };
    if assets.len() == 0 {
        return Err("nothing staged; use `ht add --path --blob` first".to_owned());
    }
    let base_hint = match checkpoint {
        Some(c) => match &c.base_changeset_id {
            Some(b) => Some(b.clone()),
            None => clone_opt_string(&stage.base_changeset_id),
        },
        None => clone_opt_string(&stage.base_changeset_id),
    };
    let visibility = match visibility {
        Some(v) => Some(v.to_owned()),
        None => if checkpoint.is_some() {
            Some("draft".to_owned())
        } else {
            None
        },
    };
    let (session_id, checkpoint_id) = match checkpoint {
        Some(c) => (Some(c.session_id.clone()), Some(c.checkpoint_id.clone())),
        None => (None, None),
    };
    Ok(SubmitPlan { assets, base_hint, visibility, session_id, checkpoint_id })
}

/// The head of `branch` among the branches of a repository, `ROOT` for a
/// branch without changesets; refused when the branch is unknown. The first
/// branch of that name counts.
pub open spec fn head_of(branches: Seq<BranchRecord>, branch: Seq<char>) -> Result<Seq<char>, Seq<char>>
    decreases branches.len(),
{
    if branches.len() == 0 {
        Err("branch not found: "@ + branch)
    } else if branches[0].name@ == branch {
        match branches[0].head_changeset_id {
            Some(h) => Ok(h@),
            None => Ok(ROOT_BASE_CHANGESET_ID@),
        }
    } else {
        head_of(branches.drop_first(), branch)
    }
}

/// The head of `branch` among the branches of a repository.
pub fn branch_head(branches: &Vec<BranchRecord>, branch: &str) -> (r: Result<String, String>)
    ensures
        match r {
            Ok(h) => head_of(branches@, branch@) == Ok::<Seq<char>, Seq<char>>(h@),
            Err(e) => head_of(branches@, branch@) == Err::<Seq<char>, Seq<char>>(e@),
        },
{
    let mut i: usize = 0;
    proof {
        assert(branches@.skip(0) =~= branches@);
    }
    while i < branches.len()
        invariant
            i <= branches@.len(),
            head_of(branches@, branch@) == head_of(branches@.skip(i as int), branch@),
        decreases branches@.len() - i,
    {
        proof {
            assert(branches@.skip(i as int)[0] == branches@[i as int]);
            assert(branches@.skip(i as int).drop_first() =~= branches@.skip(i + 1));
        }
        if str_eq(branches[i].name.as_str(), branch) {
            return match &branches[i].head_changeset_id {
                Some(h) => Ok(h.clone()),
                None => Ok(ROOT_BASE_CHANGESET_ID.to_owned()),
            };
        }
        i = i + 1;
    }
    proof {
        assert(branches@.skip(i as int) =~= Seq::<BranchRecord>::empty());
    }
    let mut m = "branch not found: ".to_owned();
    m.append(branch);
    Err(m)
}

/// Whether the workspace was checked out at another changeset than the
/// branch's head (`ROOT` when it names none).
pub fn stale_base(workspace: &WorkspaceState, head: &str) -> (r: bool)
    ensures
        r == (match workspace.base_changeset_id {
            Some(b) => b@,
            None => ROOT_BASE_CHANGESET_ID@,
        } != head@),
{
    match &workspace.base_changeset_id {
        Some(b) => !str_eq(b.as_str(), head),
        None => !str_eq(ROOT_BASE_CHANGESET_ID, head),
    }
}

/// The owner of the first listed lock on `path`, if any.
pub open spec fn lock_owner(locks: Seq<FileLockInfo>, path: Seq<char>) -> Option<Seq<char>>
    decreases locks.len(),
{
    if locks.len() == 0 {
        None
    } else if locks[0].file_path@ == path {
        Some(locks[0].owner_id@)
    } else {
        lock_owner(locks.drop_first(), path)
    }
}

/// The owner of the first listed lock on `path`, if any.
pub fn find_lock_owner(locks: &Vec<FileLockInfo>, path: &str) -> (r: Option<String>)
    ensures
        opt_str(r) == lock_owner(locks@, path@),
{
    let mut i: usize = 0;
    proof {
        assert(locks@.skip(0) =~= locks@);
    }
    while i < locks.len()
        invariant
            i <= locks@.len(),
            lock_owner(locks@, path@) == lock_owner(locks@.skip(i as int), path@),
        decreases locks@.len() - i,
    {
        proof {
            assert(locks@.skip(i as int)[0] == locks@[i as int]);
            assert(locks@.skip(i as int).drop_first() =~= locks@.skip(i + 1));
        }
        if str_eq(locks[i].file_path.as_str(), path) {
            return Some(locks[i].owner_id.clone());
        }
        i = i + 1;
    }
    proof {
        assert(locks@.skip(i as int) =~= Seq::<FileLockInfo>::empty());
    }
    None
}

/// The smallest chunk that an upload cuts a file into, in bytes.
pub const MIN_CHUNK_BYTES: usize = 65536;

/// One chunk of a file to upload: its position, the hash of its bytes and
/// their number.
#[derive(Debug)]
pub struct UploadChunk {
    pub i: usize,
    pub chunk_hash: String,
    pub size: usize,
}

/// The chunks of `bytes` cut every `size` bytes (the last one shorter),
/// numbered from `first`: each with the hash of its bytes and their number.
pub open spec fn chunks_of(bytes: Seq<u8>, size: nat, first: nat) -> Seq<(nat, Seq<char>, nat)>
    decreases bytes.len(),
{
    if bytes.len() == 0 || size == 0 {
        Seq::empty()
    } else {
        let n = if bytes.len() < size {
            bytes.len()
        } else {
            size
        };
        seq![(first, blake3_hex(bytes.take(n as int)), n)] + chunks_of(bytes.skip(n as int), size, first + 1)
    }
}

pub open spec fn upload_view(c: UploadChunk) -> (nat, Seq<char>, nat) {
    (c.i as nat, c.chunk_hash@, c.size as nat)
}

/// The size of the chunks that an upload asked to use `chunk_size` uses.
pub open spec fn effective_chunk_size(chunk_size: usize) -> nat {
    if chunk_size < MIN_CHUNK_BYTES {
        MIN_CHUNK_BYTES as nat
    } else {
        chunk_size as nat
    }
}

/// The chunks that an upload of `bytes` sends, cut every `chunk_size` bytes
/// (at least 64 KiB).
pub fn chunk_plan(bytes: &[u8], chunk_size: usize) -> (r: Vec<UploadChunk>)
    ensures
        r@.map_values(|c: UploadChunk| upload_view(c)) == chunks_of(bytes@, effective_chunk_size(chunk_size), 0),
{
    let size = if chunk_size < MIN_CHUNK_BYTES {
        MIN_CHUNK_BYTES
    } else {
        chunk_size
    };
    let ghost whole = bytes@;
    let mut chunks: Vec<UploadChunk> = Vec::new();
    let mut cursor: usize = 0;
    let mut index: usize = 0;
    let n = bytes.len();
    proof {
        assert(whole.skip(0) =~= whole);
        assert(chunks@.map_values(|c: UploadChunk| upload_view(c)) + chunks_of(whole.skip(0), size as nat, 0)
            =~= chunks_of(whole, size as nat, 0));
    }
    while cursor < n
        invariant
            n == whole.len(),
            whole == bytes@,
            size >= MIN_CHUNK_BYTES,
            cursor <= n,
            index <= cursor,
            chunks@.map_values(|c: UploadChunk| upload_view(c)) + chunks_of(whole.skip(cursor as int), size as nat, index as nat)
                == chunks_of(whole, size as nat, 0),
        decreases n - cursor,
    {
        let end = if n - cursor < size {
            n
        } else {
            cursor + size
        };
        let piece = vstd::slice::slice_subrange(bytes, cursor, end);
        let h = hash_bytes(piece);
        let ghost before = chunks@;
        let ghost rest = whole.skip(cursor as int);
        proof {
            assert(rest.take((end - cursor) as int) =~= whole.subrange(cursor as int, end as int));
            assert(rest.skip((end - cursor) as int) =~= whole.skip(end as int));
        }
        chunks.push(UploadChunk { i: index, chunk_hash: h, size: end - cursor });
        proof {
            assert(chunks@.map_values(|c: UploadChunk| upload_view(c)) =~= before.map_values(|c: UploadChunk| upload_view(c)).push(
                (index as nat, blake3_hex(whole.subrange(cursor as int, end as int)), (end - cursor) as nat),
            ));
            assert(chunks_of(rest, size as nat, index as nat) =~= seq![
                (index as nat, blake3_hex(rest.take((end - cursor) as int)), (end - cursor) as nat),
            ] + chunks_of(whole.skip(end as int), size as nat, index as nat + 1));
            assert(chunks@.map_values(|c: UploadChunk| upload_view(c)) + chunks_of(whole.skip(end as int), size as nat, index as nat + 1)
                =~= before.map_values(|c: UploadChunk| upload_view(c)) + chunks_of(rest, size as nat, index as nat));
        }
        cursor = end;
        index = index + 1;
    }
    proof {
        assert(whole.skip(n as int) =~= Seq::<u8>::empty());
        assert(chunks@.map_values(|c: UploadChunk| upload_view(c)) + Seq::<(nat, Seq<char>, nat)>::empty()
            =~= chunks@.map_values(|c: UploadChunk| upload_view(c)));
    }
    chunks
}

/// The largest file that is uploaded whole rather than in chunks, in bytes.
pub const DIRECT_UPLOAD_THRESHOLD_BYTES: usize = 8388608;

/// Whether a file of `len` bytes is uploaded whole.
pub fn uploads_directly(len: usize) -> (r: bool)
    ensures
        r <==> len <= DIRECT_UPLOAD_THRESHOLD_BYTES,
{
    len <= DIRECT_UPLOAD_THRESHOLD_BYTES
}

/// The positions, in order, of the chunks of `plan` whose hash the server
/// reports `missing`: those that an upload sends.
pub fn chunks_to_send(plan: &Vec<UploadChunk>, missing: &Vec<String>) -> (r: Vec<usize>)
    ensures
        forall|j: int| #![trigger r@[j]] 0 <= j < r@.len() ==> r@[j] < plan@.len() && strings_view(missing@).contains(plan@[r@[j] as int].chunk_hash@),
        forall|j: int, k: int| #![trigger r@[j], r@[k]] 0 <= j < k < r@.len() ==> r@[j] < r@[k],
        forall|k: int| 0 <= k < plan@.len() && strings_view(missing@).contains(#[trigger] plan@[k].chunk_hash@) ==> r@.contains(k as usize),
{
    let mut r: Vec<usize> = Vec::new();
    let mut i: usize = 0;
    while i < plan.len()
        invariant
            i <= plan@.len(),
            forall|j: int| #![trigger r@[j]] 0 <= j < r@.len() ==> r@[j] < i && strings_view(missing@).contains(plan@[r@[j] as int].chunk_hash@),
            forall|j: int, k: int| #![trigger r@[j], r@[k]] 0 <= j < k < r@.len() ==> r@[j] < r@[k],
            forall|k: int| 0 <= k < i && strings_view(missing@).contains(#[trigger] plan@[k].chunk_hash@) ==> r@.contains(k as usize),
        decreases plan@.len() - i,
    {
        if contains_str(missing, plan[i].chunk_hash.as_str()) {
            let ghost before = r@;
            r.push(i);
            proof {
                assert(r@[before.len() as int] == i);
                assert(strings_view(missing@).contains(plan@[i as int].chunk_hash@));
                assert forall|j: int| #![trigger r@[j]] 0 <= j < r@.len() implies r@[j] < i + 1
                    && strings_view(missing@).contains(plan@[r@[j] as int].chunk_hash@) by {
                    if j < before.len() {
                        assert(r@[j] == before[j]);
                    }
                }
                assert forall|j: int, k: int| #![trigger r@[j], r@[k]] 0 <= j < k < r@.len() implies r@[j] < r@[k] by {
                    if k < before.len() {
                        assert(r@[j] == before[j] && r@[k] == before[k]);
                    } else {
                        assert(r@[j] == before[j]);
                    }
                }
                assert forall|k: int| 0 <= k < i + 1 && strings_view(missing@).contains(#[trigger] plan@[k].chunk_hash@) implies r@.contains(k as usize) by {
                    if k < i {
                        let j = choose|j: int| 0 <= j < before.len() && before[j] == k as usize;
                        assert(r@[j] == k as usize);
                    } else {
                        assert(r@[before.len() as int] == i);
                    }
                }
            }
        }
        i = i + 1;
    }
    r
}

} // verus!
