//! How the client reads a workspace: the state of each asset, the staging
//! area, and the messages it shows.
use vstd::prelude::*;
use crate::cli::models::{
    AssetStatusKind, AssetDelta, StageFile, WorkspaceFile, WorkspaceState, CliProfile, ApiResponse, ApiError,
};
use crate::session::CheckpointAsset;
use crate::text::{
    str_eq, trim_text, trimmed, replace_char_text, replace_char, chars_of, string_of, contains_text, has_substring,
    u64_to_text, decimal,
};
use crate::order::{strictly_sorted, texts, distinct_sorted};
use crate::versioning::model::{opt_str, clone_opt_string};

verus! {

pub open spec fn opt_text(o: Option<&str>) -> Option<Seq<char>> {
    match o {
        Some(s) => Some(s@),
        None => None,
    }
}

/// The state of an asset from its hash at the base checkout, on disk and in
/// the staging area, whether another user locks it, and whether the base of
/// the workspace is behind its branch. A staged change wins; then a lock by
/// another user; then a stale base; then the comparison of disk and base.
pub open spec fn status_of(
    base: Option<Seq<char>>,
    local: Option<Seq<char>>,
    staged: Option<Seq<char>>,
    lock_owner: Option<Seq<char>>,
    stale_base: bool,
) -> AssetStatusKind {
    if staged is Some {
        AssetStatusKind::Staged
    } else if lock_owner is Some {
        AssetStatusKind::LockedByOther
    } else if stale_base {
        AssetStatusKind::StaleBase
    } else if base is Some && local is None {
        AssetStatusKind::Deleted
    } else if base is Some && local is Some && base->0 != local->0 {
        AssetStatusKind::Modified
    } else if base is None && local is Some {
        AssetStatusKind::Added
    } else {
        AssetStatusKind::Unmodified
    }
}

/// The state of an asset.
pub fn classify_asset_status(
    base_hash: Option<&str>,
    local_hash: Option<&str>,
    staged_hash: Option<&str>,
    lock_owner: Option<&str>,
    stale_base: bool,
) -> (r: AssetStatusKind)
    ensures
        r == status_of(opt_text(base_hash), opt_text(local_hash), opt_text(staged_hash), opt_text(lock_owner), stale_base),
{
    if staged_hash.is_some() {
        return AssetStatusKind::Staged;
    }
    if lock_owner.is_some() {
        return AssetStatusKind::LockedByOther;
    }
    if stale_base {
        return AssetStatusKind::StaleBase;
    }
    match (base_hash, local_hash) {
        (Some(_), None) => AssetStatusKind::Deleted,
        (Some(base), Some(local)) => if !str_eq(base, local) {
            AssetStatusKind::Modified
        } else {
            AssetStatusKind::Unmodified
        },
        (None, Some(_)) => AssetStatusKind::Added,
        (None, None) => AssetStatusKind::Unmodified,
    }
}

/// One asset of the status listing.
#[derive(Debug)]
pub struct AssetRow {
    pub path: String,
    pub base_hash: Option<String>,
    pub local_hash: Option<String>,
    pub staged_hash: Option<String>,
}

pub open spec fn checked_out_paths(w: WorkspaceState) -> Seq<Seq<char>> {
    w.checked_out_assets@.map_values(|a: WorkspaceFile| a.path@)
}

pub open spec fn staged_paths(s: StageFile) -> Seq<Seq<char>> {
    s.assets@.map_values(|a: AssetDelta| a.path@)
}

/// The position of the first of `paths` equal to `p`, if any.
pub open spec fn first_position(paths: Seq<Seq<char>>, p: Seq<char>) -> Option<int> {
    if exists|i: int| 0 <= i < paths.len() && paths[i] == p {
        Some(choose|i: int| 0 <= i < paths.len() && paths[i] == p && forall|j: int| 0 <= j < i ==> paths[j] != p)
    } else {
        None
    }
}

/// The hash of `p` at the last checkout, if it was checked out.
pub open spec fn base_hash_of(w: WorkspaceState, p: Seq<char>) -> Option<Seq<char>> {
    match first_position(checked_out_paths(w), p) {
        Some(i) => Some(w.checked_out_assets@[i].blob_hash@),
        None => None,
    }
}

/// The staged hash of `p`, if a new content of it is staged.
pub open spec fn staged_hash_of(s: StageFile, p: Seq<char>) -> Option<Seq<char>> {
    match first_position(staged_paths(s), p) {
        Some(i) => opt_str(s.assets@[i].blob_hash),
        None => None,
    }
}

proof fn lemma_first_position(paths: Seq<Seq<char>>, p: Seq<char>, i: int)
    requires
        0 <= i < paths.len(),
        paths[i] == p,
        forall|j: int| 0 <= j < i ==> paths[j] != p,
    ensures
        first_position(paths, p) == Some(i),
{
    let k = choose|k: int| 0 <= k < paths.len() && paths[k] == p && forall|j: int| 0 <= j < k ==> paths[j] != p;
    if k < i {
    } else if k > i {
        assert(paths[i] == p);
    }
}

fn find_checked_out(w: &WorkspaceState, p: &str) -> (r: Option<usize>)
    ensures
        match r {
            Some(i) => i < w.checked_out_assets@.len() && first_position(checked_out_paths(*w), p@) == Some(i as int),
            None => first_position(checked_out_paths(*w), p@) is None,
        },
{
    let ghost ps = checked_out_paths(*w);
    let mut i: usize = 0;
    while i < w.checked_out_assets.len()
        invariant
            ps == checked_out_paths(*w),
            i <= ps.len(),
            forall|j: int| 0 <= j < i ==> ps[j] != p@,
        decreases ps.len() - i,
    {
        if str_eq(w.checked_out_assets[i].path.as_str(), p) {
            proof {
                lemma_first_position(ps, p@, i as int);
            }
            return Some(i);
        }
        i = i + 1;
    }
    None
}

fn find_staged(s: &StageFile, p: &str) -> (r: Option<usize>)
    ensures
        match r {
            Some(i) => i < s.assets@.len() && staged_paths(*s)[i as int] == p@ && first_position(staged_paths(*s), p@) == Some(i as int),
            None => first_position(staged_paths(*s), p@) is None,
        },
{
    let ghost ps = staged_paths(*s);
    let mut i: usize = 0;
    while i < s.assets.len()
        invariant
            ps == staged_paths(*s),
            i <= ps.len(),
            forall|j: int| 0 <= j < i ==> ps[j] != p@,
        decreases ps.len() - i,
    {
        if str_eq(s.assets[i].path.as_str(), p) {
            proof {
                lemma_first_position(ps, p@, i as int);
            }
            return Some(i);
        }
        i = i + 1;
    }
    None
}

/// The paths of the status listing: those checked out and those staged, each
/// once, in increasing order.
pub fn asset_paths(workspace: &WorkspaceState, stage: &StageFile) -> (r: Vec<String>)
    ensures
        strictly_sorted(texts(r@)),
        texts(r@).to_set() == (checked_out_paths(*workspace) + staged_paths(*stage)).to_set(),
{
    let mut all: Vec<String> = Vec::new();
    let mut i: usize = 0;
    while i < workspace.checked_out_assets.len()
        invariant
            i <= workspace.checked_out_assets@.len(),
            texts(all@) == checked_out_paths(*workspace).take(i as int),
        decreases workspace.checked_out_assets@.len() - i,
    {
        let ghost before = all@;
        all.push(workspace.checked_out_assets[i].path.clone());
        proof {
            assert(texts(all@) =~= texts(before).push(workspace.checked_out_assets@[i as int].path@));
            assert(checked_out_paths(*workspace).take(i + 1) =~= checked_out_paths(*workspace).take(i as int).push(
                workspace.checked_out_assets@[i as int].path@,
            ));
        }
        i = i + 1;
    }
    let ghost first = texts(all@);
    proof {
        assert(first =~= checked_out_paths(*workspace));
    }
    let mut k: usize = 0;
    while k < stage.assets.len()
        invariant
            k <= stage.assets@.len(),
            first == checked_out_paths(*workspace),
            texts(all@) == first + staged_paths(*stage).take(k as int),
        decreases stage.assets@.len() - k,
    {
        let ghost before = all@;
        all.push(stage.assets[k].path.clone());
        proof {
            assert(texts(all@) =~= texts(before).push(stage.assets@[k as int].path@));
            assert(staged_paths(*stage).take(k + 1) =~= staged_paths(*stage).take(k as int).push(
                stage.assets@[k as int].path@,
            ));
            assert(texts(all@) =~= first + staged_paths(*stage).take(k + 1));
        }
        k = k + 1;
    }
    proof {
        assert(staged_paths(*stage).take(stage.assets@.len() as int) =~= staged_paths(*stage));
    }
    distinct_sorted(&all)
}

/// The row of `path`: its hash at the last checkout, the hash of its content
/// on disk (`local_hash`, which the caller reads), and its staged hash.
pub open spec fn row_of(w: WorkspaceState, s: StageFile, path: Seq<char>, local: Option<Seq<char>>, row: AssetRow) -> bool {
    &&& row.path@ == path
    &&& opt_str(row.base_hash) == base_hash_of(w, path)
    &&& opt_str(row.local_hash) == local
    &&& opt_str(row.staged_hash) == staged_hash_of(s, path)
}

/// The rows of the status listing for `paths`, `local_hashes` holding the
/// hash of each path's content on disk (`None` for a file that is not there).
pub fn collect_asset_rows(
    workspace: &WorkspaceState,
    stage: &StageFile,
    paths: Vec<String>,
    local_hashes: Vec<Option<String>>,
) -> (r: Vec<AssetRow>)
    requires
        paths@.len() == local_hashes@.len(),
    ensures
        r@.len() == paths@.len(),
        forall|i: int|
            0 <= i < r@.len() ==> row_of(*workspace, *stage, paths@[i]@, opt_str(local_hashes@[i]), #[trigger] r@[i]),
{
    let mut rows: Vec<AssetRow> = Vec::new();
    let mut i: usize = 0;
    while i < paths.len()
        invariant
            paths@.len() == local_hashes@.len(),
            i <= paths@.len(),
            rows@.len() == i,
            forall|j: int|
                0 <= j < i ==> row_of(*workspace, *stage, paths@[j]@, opt_str(local_hashes@[j]), #[trigger] rows@[j]),
        decreases paths@.len() - i,
    {
        let path = paths[i].as_str();
        let base_hash = match find_checked_out(workspace, path) {
            Some(k) => Some(workspace.checked_out_assets[k].blob_hash.clone()),
            None => None,
        };
        let staged_hash = match find_staged(stage, path) {
            Some(k) => clone_opt_string(&stage.assets[k].blob_hash),
            None => None,
        };
        rows.push(
            AssetRow {
                path: paths[i].clone(),
                base_hash,
                local_hash: clone_opt_string(&local_hashes[i]),
                staged_hash,
            },
        );
        i = i + 1;
    }
    rows
}

pub open spec fn delta_view(a: AssetDelta) -> (Seq<char>, Option<Seq<char>>) {
    (a.path@, opt_str(a.blob_hash))
}

pub open spec fn deltas_view(s: Seq<AssetDelta>) -> Seq<(Seq<char>, Option<Seq<char>>)> {
    s.map_values(|a: AssetDelta| delta_view(a))
}

/// The staged changes of `s` once `path` is set to `h`: the first entry of
/// the path is updated, or a new entry added.
pub open spec fn staged_with(s: StageFile, path: Seq<char>, h: Option<Seq<char>>) -> Seq<
    (Seq<char>, Option<Seq<char>>),
> {
    match first_position(staged_paths(s), path) {
        Some(k) => deltas_view(s.assets@).update(k, (path, h)),
        None => deltas_view(s.assets@).push((path, h)),
    }
}

/// The staging area with `path` set to `blob_hash` (`None` stages its
/// deletion).
#[verifier::rlimit(40)]
pub fn upsert_stage_asset(stage: &mut StageFile, path: &str, blob_hash: Option<String>)
    ensures
        final(stage).branch == old(stage).branch,
        final(stage).base_changeset_id == old(stage).base_changeset_id,
        deltas_view(final(stage).assets@) == staged_with(*old(stage), path@, opt_str(blob_hash)),
{
    match find_staged(stage, path) {
        Some(k) => {
            let p = stage.assets[k].path.clone();
            let ghost before = stage.assets@;
            let ghost hv = opt_str(blob_hash);
            let d = AssetDelta { path: p, blob_hash };
            assert(delta_view(d) == (path@, hv));
            stage.assets.set(k, d);
            proof {
                assert(stage.assets@ == before.update(k as int, d));
                assert(deltas_view(stage.assets@) =~= deltas_view(before).update(k as int, (path@, opt_str(blob_hash))));
            }
        },
        None => {
            let ghost before = stage.assets@;
            stage.assets.push(AssetDelta { path: path.to_owned(), blob_hash });
            proof {
                assert(deltas_view(stage.assets@) =~= deltas_view(before).push((path@, opt_str(blob_hash))));
            }
        },
    }
}

/// A copy of staged changes.
pub fn clone_stage_assets(v: &Vec<AssetDelta>) -> (r: Vec<AssetDelta>)
    ensures
        r@ == v@,
{
    let mut r: Vec<AssetDelta> = Vec::new();
    let mut i: usize = 0;
    while i < v.len()
        invariant
            i <= v@.len(),
            r@ == v@.take(i as int),
        decreases v@.len() - i,
    {
        r.push(v[i].clone());
        assert(r@ =~= v@.take(i + 1));
        i = i + 1;
    }
    assert(v@.take(v@.len() as int) =~= v@);
    r
}

/// A file path written with `/` between its parts, as the repository names assets.
pub fn normalize_asset_path(path: &str) -> (r: String)
    ensures
        r@ == replace_char(path@, '\\', '/'),
{
    replace_char_text(path, '\\', '/')
}

/// The staged changes that restore the assets of a checkpoint.
pub fn checkpoint_assets_to_deltas(assets: &Vec<CheckpointAsset>) -> (r: Vec<AssetDelta>)
    ensures
        deltas_view(r@) == assets@.map_values(|a: CheckpointAsset| (a.path@, Some(a.blob_hash@))),
{
    let mut r: Vec<AssetDelta> = Vec::new();
    let mut i: usize = 0;
    while i < assets.len()
        invariant
            i <= assets@.len(),
            deltas_view(r@) == assets@.take(i as int).map_values(|a: CheckpointAsset| (a.path@, Some(a.blob_hash@))),
        decreases assets@.len() - i,
    {
        let ghost before = r@;
        r.push(AssetDelta { path: assets[i].path.clone(), blob_hash: Some(assets[i].blob_hash.clone()) });
        proof {
            assert(deltas_view(r@) =~= deltas_view(before).push((assets@[i as int].path@, Some(assets@[i as int].blob_hash@))));
            assert(assets@.take(i + 1) =~= assets@.take(i as int).push(assets@[i as int]));
            assert(deltas_view(r@) =~= assets@.take(i + 1).map_values(
                |a: CheckpointAsset| (a.path@, Some(a.blob_hash@)),
            ));
        }
        i = i + 1;
    }
    proof {
        assert(assets@.take(assets@.len() as int) =~= assets@);
    }
    r
}

/// The most characters of a body that an error message shows.
pub const BODY_PREVIEW_CHARS: usize = 200;

/// A body as an error message shows it: trimmed, on one line, `<empty>` if
/// nothing is left, and cut after its first 200 characters, with `...`.
pub open spec fn body_summary(body: Seq<char>) -> Seq<char> {
    let compact = replace_char(trimmed(body), '\n', ' ');
    if compact.len() == 0 {
        "<empty>"@
    } else if compact.len() > BODY_PREVIEW_CHARS {
        compact.take(BODY_PREVIEW_CHARS as int) + "..."@
    } else {
        compact
    }
}

/// A body as an error message shows it.
pub fn summarize_body(body: &str) -> (r: String)
    ensures
        r@ == body_summary(body@),
{
    let t = trim_text(body);
    let compact = replace_char_text(t.as_str(), '\n', ' ');
    let cs = chars_of(compact.as_str());
    if cs.len() == 0 {
        return "<empty>".to_owned();
    }
    if cs.len() > BODY_PREVIEW_CHARS {
        let mut preview = string_of(&cs, 0, BODY_PREVIEW_CHARS);
        preview.append("...");
        return preview;
    }
    compact
}

/// The repository a command works on: the one named, or the current one.
pub fn resolve_repo(profile: &CliProfile, repo: Option<&str>) -> (r: Result<String, String>)
    ensures
        match repo {
            Some(x) => r is Ok && r->Ok_0@ == x@,
            None => match profile.current_repo {
                Some(c) => r is Ok && r->Ok_0@ == c@,
                None => r is Err && r->Err_0@ == "repo not set. pass --repo or run login with --repo"@,
            },
        },
{
    if let Some(repo) = repo {
        return Ok(repo.to_owned());
    }
    match &profile.current_repo {
        Some(c) => Ok(c.clone()),
        None => Err("repo not set. pass --repo or run login with --repo".to_owned()),
    }
}

/// The message of a failed answer: `[code] message (request_id=id)` from
/// its error, or `fallback` when it carries none.
pub open spec fn error_text<T>(response: ApiResponse<T>, fallback: Seq<char>) -> Seq<char> {
    match response.error {
        Some(e) => "["@ + e.code@ + "] "@ + e.message@ + " (request_id="@ + e.request_id@ + ")"@,
        None => fallback,
    }
}

/// The message of a failed answer.
pub fn api_error_message<T>(response: &ApiResponse<T>, fallback: &str) -> (r: String)
    ensures
        r@ == error_text(*response, fallback@),
{
    match &response.error {
        Some(e) => {
            let mut m = "[".to_owned();
            m.append(e.code.as_str());
            m.append("] ");
            m.append(e.message.as_str());
            m.append(" (request_id=");
            m.append(e.request_id.as_str());
            m.append(")");
            m
        },
        None => fallback.to_owned(),
    }
}

/// The message of a refused submission, which names the cause it recognises
/// in the server's message: a lock conflict, a stale base, a missing blob,
/// or a failed authentication or authorization.
pub open spec fn submit_text<T>(response: ApiResponse<T>) -> Seq<char> {
    let m = error_text(response, "submit failed"@);
    if has_substring(m, "Lock conflict"@) {
        "submit failed: lock conflict: "@ + m
    } else if has_substring(m, "base_changeset_id mismatch"@) {
        "submit failed: stale base snapshot: "@ + m
    } else if has_substring(m, "Blob not found"@) {
        "submit failed: missing blob: "@ + m
    } else if has_substring(m, "UNAUTHORIZED"@) || has_substring(m, "FORBIDDEN"@) {
        "submit failed: authentication/authorization error: "@ + m
    } else {
        m
    }
}

fn prefixed(prefix: &str, m: &String) -> (r: String)
    ensures
        r@ == prefix@ + m@,
{
    let mut r = prefix.to_owned();
    r.append(m.as_str());
    r
}

/// The message of a refused submission.
pub fn submit_error_message<T>(response: &ApiResponse<T>) -> (r: String)
    ensures
        r@ == submit_text(*response),
{
    let m = api_error_message(response, "submit failed");
    if contains_text(m.as_str(), "Lock conflict") {
        return prefixed("submit failed: lock conflict: ", &m);
    }
    if contains_text(m.as_str(), "base_changeset_id mismatch") {
        return prefixed("submit failed: stale base snapshot: ", &m);
    }
    if contains_text(m.as_str(), "Blob not found") {
        return prefixed("submit failed: missing blob: ", &m);
    }
    if contains_text(m.as_str(), "UNAUTHORIZED") || contains_text(m.as_str(), "FORBIDDEN") {
        return prefixed("submit failed: authentication/authorization error: ", &m);
    }
    m
}

/// Why switching to `branch` is refused, if it is: the branch must exist,
/// and without `force` the staging area (of `staged` entries, when one is
/// kept) must be empty.
pub open spec fn switch_refusal(branches: Seq<Seq<char>>, branch: Seq<char>, force: bool, staged: Option<usize>) -> Option<
    Seq<char>,
> {
    if !branches.contains(branch) {
        Some("branch not found: "@ + branch)
    } else if !force && staged is Some && staged->0 > 0 {
        Some(
            "current workspace has "@ + decimal(staged->0 as nat)
                + " staged modification(s). run `ht submit` first or use `--force` to clear the staging area"@,
        )
    } else {
        None
    }
}

/// Makes `branch` of repository `repo_id` the current one of `profile`, and
/// gives the empty staging area to keep for it; `branches` names the
/// branches of the repository and `staged` counts the entries of the current
/// staging area, if one is kept.
pub fn switch_repo(
    profile: &mut CliProfile,
    repo_id: &str,
    branches: &Vec<String>,
    branch: &str,
    force: bool,
    staged: Option<usize>,
) -> (r: Result<StageFile, String>)
    ensures
        match switch_refusal(texts(branches@), branch@, force, staged) {
            Some(msg) => r is Err && r->Err_0@ == msg && *final(profile) == *old(profile),
            None => {
                &&& r is Ok
                &&& r->Ok_0.branch@ == branch@
                &&& r->Ok_0.base_changeset_id is None
                &&& r->Ok_0.assets@.len() == 0
                &&& opt_str(final(profile).current_repo) == Some(repo_id@)
                &&& final(profile).current_branch@ == branch@
                &&& final(profile).server == old(profile).server
                &&& final(profile).api_key == old(profile).api_key
                &&& final(profile).api_key_direct == old(profile).api_key_direct
                &&& final(profile).access_token == old(profile).access_token
                &&& final(profile).refresh_token == old(profile).refresh_token
                &&& final(profile).access_token_expires_at == old(profile).access_token_expires_at
            },
        },
{
    let mut found = false;
    let mut i: usize = 0;
    while i < branches.len()
        invariant
            i <= branches@.len(),
            found == exists|j: int| 0 <= j < i && branches@[j]@ == branch@,
        decreases branches@.len() - i,
    {
        if str_eq(branches[i].as_str(), branch) {
            found = true;
        }
        i = i + 1;
    }
    proof {
        if found {
            let j = choose|j: int| 0 <= j < branches@.len() && branches@[j]@ == branch@;
            assert(texts(branches@)[j] == branch@);
        } else {
            assert forall|j: int| 0 <= j < texts(branches@).len() implies texts(branches@)[j] != branch@ by {
                assert(branches@[j]@ != branch@);
            }
        }
    }
    if !found {
        let mut m = "branch not found: ".to_owned();
        m.append(branch);
        return Err(m);
    }
    if !force {
        if let Some(n) = staged {
            if n > 0 {
                let mut m = "current workspace has ".to_owned();
                m.append(u64_to_text(n as u64).as_str());
                m.append(" staged modification(s). run `ht submit` first or use `--force` to clear the staging area");
                return Err(m);
            }
        }
    }
    profile.current_repo = Some(repo_id.to_owned());
    profile.current_branch = branch.to_owned();
    Ok(StageFile::default_for_branch(branch))
}


proof fn lemma_min_position(paths: Seq<Seq<char>>, p: Seq<char>)
    requires
        exists|i: int| 0 <= i < paths.len() && paths[i] == p,
    ensures
        exists|i: int| 0 <= i < paths.len() && paths[i] == p && forall|j: int| 0 <= j < i ==> paths[j] != p,
    decreases paths.len(),
{
    if paths[0] == p {
        assert(forall|j: int| 0 <= j < 0 ==> paths[j] != p);
    } else {
        let rest = paths.drop_first();
        let w = choose|i: int| 0 <= i < paths.len() && paths[i] == p;
        assert(rest[w - 1] == p);
        lemma_min_position(rest, p);
        let m = choose|i: int| 0 <= i < rest.len() && rest[i] == p && forall|j: int| 0 <= j < i ==> rest[j] != p;
        assert(paths[m + 1] == p);
        assert forall|j: int| 0 <= j < m + 1 implies paths[j] != p by {
            if j > 0 {
                assert(paths[j] == rest[j - 1]);
            }
        }
    }
}

/// The position that `first_position` names holds the path, and no earlier one does.
proof fn lemma_first_position_found(paths: Seq<Seq<char>>, p: Seq<char>)
    requires
        first_position(paths, p) is Some,
    ensures
        0 <= first_position(paths, p)->0 < paths.len(),
        paths[first_position(paths, p)->0] == p,
        forall|j: int| 0 <= j < first_position(paths, p)->0 ==> paths[j] != p,
{
    lemma_min_position(paths, p);
}

/// Once a path is staged, the staging area reports that change for it.
pub proof fn staged_change_is_seen(before: StageFile, after: StageFile, path: Seq<char>, h: Option<Seq<char>>)
    requires
        deltas_view(after.assets@) == staged_with(before, path, h),
    ensures
        staged_hash_of(after, path) == h,
{
    let ps = staged_paths(before);
    let qs = staged_paths(after);
    assert(qs.len() == deltas_view(after.assets@).len());
    assert forall|i: int| 0 <= i < qs.len() implies qs[i] == deltas_view(after.assets@)[i].0 by {}
    match first_position(ps, path) {
        Some(k) => {
            lemma_first_position_found(ps, path);
            assert forall|i: int| 0 <= i < qs.len() implies qs[i] == ps[i] by {
                assert(deltas_view(before.assets@)[i].0 == ps[i]);
            }
            assert(qs =~= ps);
            assert(deltas_view(after.assets@)[k].1 == h);
        },
        None => {
            if exists|i: int| 0 <= i < ps.len() && ps[i] == path {
                lemma_min_position(ps, path);
            }
            assert forall|j: int| 0 <= j < ps.len() implies qs[j] != path by {
                assert(deltas_view(before.assets@)[j].0 == ps[j]);
                assert(qs[j] == ps[j]);
            }
            let n = ps.len() as int;
            assert(qs[n] == path);
            lemma_first_position(qs, path, n);
            assert(deltas_view(after.assets@)[n].1 == h);
        },
    }
}

} // verus!
