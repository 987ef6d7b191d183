//! The records of the versioning service, their mathematical models, and the
//! functional specification of every operation on a repository.
use vstd::prelude::*;
use crate::keyed::Keyed;
use crate::text::str_eq;

verus! {

/// The base that the first changeset of a branch names.
pub const ROOT_BASE_CHANGESET_ID: &'static str = "ROOT";

/// The name of the branch that every repository starts with.
pub const DEFAULT_BRANCH_NAME: &'static str = "main";

pub open spec fn opt_str(o: Option<String>) -> Option<Seq<char>> {
    match o {
        Some(s) => Some(s@),
        None => None,
    }
}

pub open spec fn result_view<A: View, B: View>(r: Result<A, B>) -> Result<A::V, B::V> {
    match r {
        Ok(a) => Ok(a@),
        Err(b) => Err(b@),
    }
}

pub fn clone_opt_string(o: &Option<String>) -> (r: Option<String>)
    ensures
        r == *o,
{
    match o {
        Some(s) => Some(s.clone()),
        None => None,
    }
}

#[derive(Debug, Clone, Copy, PartialEq, Eq, Structural)]
pub enum ChangesetKind {
    Normal,
    Rollback,
}

impl ChangesetKind {
    /// The name of the kind as the service stores it.
    pub fn as_str(&self) -> (r: &'static str)
        ensures
            r@ == (match self {
                ChangesetKind::Normal => "normal"@,
                ChangesetKind::Rollback => "rollback"@,
            }),
    {
        proof {
            reveal_strlit("normal");
            reveal_strlit("rollback");
        }
        match self {
            ChangesetKind::Normal => "normal",
            ChangesetKind::Rollback => "rollback",
        }
    }
}

/// One change to one asset: its new content, or `None` for a deletion.
#[derive(Debug)]
pub struct AssetDelta {
    pub path: String,
    pub blob_hash: Option<String>,
}

pub struct AssetDeltaView {
    pub path: Seq<char>,
    pub blob_hash: Option<Seq<char>>,
}

impl View for AssetDelta {
    type V = AssetDeltaView;

    open spec fn view(&self) -> AssetDeltaView {
        AssetDeltaView { path: self.path@, blob_hash: opt_str(self.blob_hash) }
    }
}

impl Clone for AssetDelta {
    fn clone(&self) -> (r: Self)
        ensures
            r == *self,
    {
        AssetDelta { path: self.path.clone(), blob_hash: clone_opt_string(&self.blob_hash) }
    }
}

impl Keyed for AssetDelta {
    type Model = Option<Seq<char>>;

    open spec fn key_of(&self) -> Seq<char> {
        self.path@
    }

    open spec fn model(&self) -> Option<Seq<char>> {
        opt_str(self.blob_hash)
    }

    fn key(&self) -> (k: &str) {
        self.path.as_str()
    }
}

pub open spec fn deltas_view(s: Seq<AssetDelta>) -> Seq<AssetDeltaView> {
    s.map_values(|d: AssetDelta| d@)
}

pub fn clone_deltas(v: &Vec<AssetDelta>) -> (r: Vec<AssetDelta>)
    ensures
        r@ == v@,
{
    let mut r: Vec<AssetDelta> = Vec::new();
    let mut i: usize = 0;
    while i < v.len()
        invariant
            i <= v@.len(),
            r@ == v@.subrange(0, i as int),
        decreases v@.len() - i,
    {
        r.push(v[i].clone());
        assert(r@ =~= v@.subrange(0, i + 1));
        i = i + 1;
    }
    assert(v@.subrange(0, v@.len() as int) =~= v@);
    r
}

pub fn clone_strings(v: &Vec<String>) -> (r: Vec<String>)
    ensures
        r@ == v@,
{
    let mut r: Vec<String> = Vec::new();
    let mut i: usize = 0;
    while i < v.len()
        invariant
            i <= v@.len(),
            r@ == v@.subrange(0, i as int),
        decreases v@.len() - i,
    {
        r.push(v[i].clone());
        assert(r@ =~= v@.subrange(0, i + 1));
        i = i + 1;
    }
    assert(v@.subrange(0, v@.len() as int) =~= v@);
    r
}

pub open spec fn strings_view(s: Seq<String>) -> Seq<Seq<char>> {
    s.map_values(|x: String| x@)
}

/// A changeset as the service records it once accepted.
#[derive(Debug)]
pub struct ChangesetRecord {
    pub changeset_id: String,
    pub repo_id: String,
    pub branch: String,
    pub parent_changeset_id: Option<String>,
    pub base_changeset_id: Option<String>,
    pub kind: ChangesetKind,
    pub rollback_of: Option<String>,
    pub author: String,
    pub message: String,
    /// Milliseconds since the Unix epoch.
    pub created_at: i64,
    pub assets: Vec<AssetDelta>,
}

pub struct ChangesetView {
    pub changeset_id: Seq<char>,
    pub repo_id: Seq<char>,
    pub branch: Seq<char>,
    pub parent_changeset_id: Option<Seq<char>>,
    pub base_changeset_id: Option<Seq<char>>,
    pub kind: ChangesetKind,
    pub rollback_of: Option<Seq<char>>,
    pub author: Seq<char>,
    pub message: Seq<char>,
    pub created_at: i64,
    pub assets: Seq<AssetDeltaView>,
}

impl View for ChangesetRecord {
    type V = ChangesetView;

    open spec fn view(&self) -> ChangesetView {
        ChangesetView {
            changeset_id: self.changeset_id@,
            repo_id: self.repo_id@,
            branch: self.branch@,
            parent_changeset_id: opt_str(self.parent_changeset_id),
            base_changeset_id: opt_str(self.base_changeset_id),
            kind: self.kind,
            rollback_of: opt_str(self.rollback_of),
            author: self.author@,
            message: self.message@,
            created_at: self.created_at,
            assets: deltas_view(self.assets@),
        }
    }
}

impl Clone for ChangesetRecord {
    fn clone(&self) -> (r: Self)
        ensures
            r@ == self@,
    {
        ChangesetRecord {
            changeset_id: self.changeset_id.clone(),
            repo_id: self.repo_id.clone(),
            branch: self.branch.clone(),
            parent_changeset_id: clone_opt_string(&self.parent_changeset_id),
            base_changeset_id: clone_opt_string(&self.base_changeset_id),
            kind: self.kind,
            rollback_of: clone_opt_string(&self.rollback_of),
            author: self.author.clone(),
            message: self.message.clone(),
            created_at: self.created_at,
            assets: clone_deltas(&self.assets),
        }
    }
}

impl Keyed for ChangesetRecord {
    type Model = ChangesetView;

    open spec fn key_of(&self) -> Seq<char> {
        self.changeset_id@
    }

    open spec fn model(&self) -> ChangesetView {
        self@
    }

    fn key(&self) -> (k: &str) {
        self.changeset_id.as_str()
    }
}

/// A branch as the service lists it.
#[derive(Debug)]
pub struct BranchRecord {
    pub name: String,
    pub created_by: String,
    /// Milliseconds since the Unix epoch.
    pub created_at: i64,
    pub is_default: bool,
    pub head_changeset_id: Option<String>,
}

pub struct BranchRecordView {
    pub name: Seq<char>,
    pub created_by: Seq<char>,
    pub created_at: i64,
    pub is_default: bool,
    pub head_changeset_id: Option<Seq<char>>,
}

impl View for BranchRecord {
    type V = BranchRecordView;

    open spec fn view(&self) -> BranchRecordView {
        BranchRecordView {
            name: self.name@,
            created_by: self.created_by@,
            created_at: self.created_at,
            is_default: self.is_default,
            head_changeset_id: opt_str(self.head_changeset_id),
        }
    }
}

impl Clone for BranchRecord {
    fn clone(&self) -> (r: Self)
        ensures
            r == *self,
    {
        BranchRecord {
            name: self.name.clone(),
            created_by: self.created_by.clone(),
            created_at: self.created_at,
            is_default: self.is_default,
            head_changeset_id: clone_opt_string(&self.head_changeset_id),
        }
    }
}

impl Keyed for BranchRecord {
    type Model = BranchRecordView;

    open spec fn key_of(&self) -> Seq<char> {
        self.name@
    }

    open spec fn model(&self) -> BranchRecordView {
        self@
    }

    fn key(&self) -> (k: &str) {
        self.name.as_str()
    }
}

/// What a client asks to commit.
#[derive(Debug)]
pub struct SubmitChangesetInput {
    pub repo_id: String,
    pub branch: String,
    pub base_changeset_id: Option<String>,
    pub kind: ChangesetKind,
    pub rollback_of: Option<String>,
    pub author: String,
    pub message: String,
    pub assets: Vec<AssetDelta>,
}

pub struct SubmitView {
    pub repo_id: Seq<char>,
    pub branch: Seq<char>,
    pub base_changeset_id: Option<Seq<char>>,
    pub kind: ChangesetKind,
    pub rollback_of: Option<Seq<char>>,
    pub author: Seq<char>,
    pub message: Seq<char>,
    pub assets: Seq<AssetDeltaView>,
}

impl View for SubmitChangesetInput {
    type V = SubmitView;

    open spec fn view(&self) -> SubmitView {
        SubmitView {
            repo_id: self.repo_id@,
            branch: self.branch@,
            base_changeset_id: opt_str(self.base_changeset_id),
            kind: self.kind,
            rollback_of: opt_str(self.rollback_of),
            author: self.author@,
            message: self.message@,
            assets: deltas_view(self.assets@),
        }
    }
}

/// One page of a branch's history, newest first.
#[derive(Debug)]
pub struct HistoryPage {
    pub items: Vec<ChangesetRecord>,
    pub next_cursor: Option<usize>,
}

/// One asset of a snapshot.
#[derive(Debug)]
pub struct SnapshotEntry {
    pub path: String,
    pub blob_hash: String,
}

impl Clone for SnapshotEntry {
    fn clone(&self) -> (r: Self)
        ensures
            r == *self,
    {
        SnapshotEntry { path: self.path.clone(), blob_hash: self.blob_hash.clone() }
    }
}

impl Keyed for SnapshotEntry {
    type Model = Seq<char>;

    open spec fn key_of(&self) -> Seq<char> {
        self.path@
    }

    open spec fn model(&self) -> Seq<char> {
        self.blob_hash@
    }

    fn key(&self) -> (k: &str) {
        self.path.as_str()
    }
}

/// The assets of a branch at one changeset, sorted by path.
#[derive(Debug)]
pub struct SyncSnapshot {
    pub repo_id: String,
    pub branch: String,
    pub changeset_id: Option<String>,
    pub assets: Vec<SnapshotEntry>,
}

/// The changes that bring a branch's head back to an earlier changeset.
#[derive(Debug)]
pub struct RollbackPlan {
    pub repo_id: String,
    pub branch: String,
    pub base_changeset_id: String,
    pub target_changeset_id: String,
    pub assets: Vec<AssetDelta>,
}

#[derive(Debug, PartialEq, Eq)]
pub enum VersioningError {
    RepoNotFound { repo_id: String },
    BranchNotFound { repo_id: String, branch: String },
    BranchAlreadyExists { repo_id: String, branch: String },
    ChangesetNotFound { repo_id: String, changeset_id: String },
    BaseChangesetRequired,
    BaseChangesetMismatch {
        repo_id: String,
        branch: String,
        expected: Option<String>,
        got: Option<String>,
    },
    InvalidRollbackTarget { repo_id: String, branch: String, target_changeset_id: String },
}

pub enum VersioningErrorView {
    RepoNotFound { repo_id: Seq<char> },
    BranchNotFound { repo_id: Seq<char>, branch: Seq<char> },
    BranchAlreadyExists { repo_id: Seq<char>, branch: Seq<char> },
    ChangesetNotFound { repo_id: Seq<char>, changeset_id: Seq<char> },
    BaseChangesetRequired,
    BaseChangesetMismatch {
        repo_id: Seq<char>,
        branch: Seq<char>,
        expected: Option<Seq<char>>,
        got: Option<Seq<char>>,
    },
    InvalidRollbackTarget { repo_id: Seq<char>, branch: Seq<char>, target_changeset_id: Seq<char> },
}

impl View for VersioningError {
    type V = VersioningErrorView;

    open spec fn view(&self) -> VersioningErrorView {
        match self {
            VersioningError::RepoNotFound { repo_id } => VersioningErrorView::RepoNotFound {
                repo_id: repo_id@,
            },
            VersioningError::BranchNotFound { repo_id, branch } =>
                VersioningErrorView::BranchNotFound { repo_id: repo_id@, branch: branch@ },
            VersioningError::BranchAlreadyExists { repo_id, branch } =>
                VersioningErrorView::BranchAlreadyExists { repo_id: repo_id@, branch: branch@ },
            VersioningError::ChangesetNotFound { repo_id, changeset_id } =>
                VersioningErrorView::ChangesetNotFound {
                    repo_id: repo_id@,
                    changeset_id: changeset_id@,
                },
            VersioningError::BaseChangesetRequired => VersioningErrorView::BaseChangesetRequired,
            VersioningError::BaseChangesetMismatch { repo_id, branch, expected, got } =>
                VersioningErrorView::BaseChangesetMismatch {
                    repo_id: repo_id@,
                    branch: branch@,
                    expected: opt_str(*expected),
                    got: opt_str(*got),
                },
            VersioningError::InvalidRollbackTarget { repo_id, branch, target_changeset_id } =>
                VersioningErrorView::InvalidRollbackTarget {
                    repo_id: repo_id@,
                    branch: branch@,
                    target_changeset_id: target_changeset_id@,
                },
        }
    }
}

impl VersioningError {
    /// Whether two errors are the same error, variant and fields alike.
    pub fn same_as(&self, other: &VersioningError) -> (r: bool)
        ensures
            r == (self@ == other@),
    {
        match (self, other) {
            (
                VersioningError::RepoNotFound { repo_id: a },
                VersioningError::RepoNotFound { repo_id: b },
            ) => str_eq(a.as_str(), b.as_str()),
            (
                VersioningError::BranchNotFound { repo_id: a, branch: x },
                VersioningError::BranchNotFound { repo_id: b, branch: y },
            ) => str_eq(a.as_str(), b.as_str()) && str_eq(x.as_str(), y.as_str()),
            (
                VersioningError::BranchAlreadyExists { repo_id: a, branch: x },
                VersioningError::BranchAlreadyExists { repo_id: b, branch: y },
            ) => str_eq(a.as_str(), b.as_str()) && str_eq(x.as_str(), y.as_str()),
            (
                VersioningError::ChangesetNotFound { repo_id: a, changeset_id: x },
                VersioningError::ChangesetNotFound { repo_id: b, changeset_id: y },
            ) => str_eq(a.as_str(), b.as_str()) && str_eq(x.as_str(), y.as_str()),
            (VersioningError::BaseChangesetRequired, VersioningError::BaseChangesetRequired) => true,
            (
                VersioningError::BaseChangesetMismatch { repo_id: a, branch: x, expected: e1, got: g1 },
                VersioningError::BaseChangesetMismatch { repo_id: b, branch: y, expected: e2, got: g2 },
            ) => str_eq(a.as_str(), b.as_str()) && str_eq(x.as_str(), y.as_str()) && opt_string_eq(e1, e2) && opt_string_eq(g1, g2),
            (
                VersioningError::InvalidRollbackTarget { repo_id: a, branch: x, target_changeset_id: t1 },
                VersioningError::InvalidRollbackTarget { repo_id: b, branch: y, target_changeset_id: t2 },
            ) => str_eq(a.as_str(), b.as_str()) && str_eq(x.as_str(), y.as_str()) && str_eq(t1.as_str(), t2.as_str()),
            _ => false,
        }
    }
}

pub fn opt_string_eq(a: &Option<String>, b: &Option<String>) -> (r: bool)
    ensures
        r == (opt_str(*a) == opt_str(*b)),
{
    match (a, b) {
        (Some(x), Some(y)) => str_eq(x.as_str(), y.as_str()),
        (None, None) => true,
        _ => false,
    }
}

// ---------------------------------------------------------------------------
// The model of a repository.
// ---------------------------------------------------------------------------

/// A branch: its record and the changesets that led to its head, oldest first.
pub struct BranchView {
    pub record: BranchRecordView,
    pub history: Seq<Seq<char>>,
}

/// The state of one repository.
pub struct RepoView {
    pub default_branch: Seq<char>,
    pub branches: Map<Seq<char>, BranchView>,
    pub changesets: Map<Seq<char>, ChangesetView>,
    pub snapshots: Map<Seq<char>, Map<Seq<char>, Seq<char>>>,
}

/// The state of the service: each repository by its id.
pub type VersionsView = Map<Seq<char>, RepoView>;

pub open spec fn new_branch_view(
    name: Seq<char>,
    created_by: Seq<char>,
    now: i64,
    is_default: bool,
    head: Option<Seq<char>>,
    history: Seq<Seq<char>>,
) -> BranchView {
    BranchView {
        record: BranchRecordView { name, created_by, created_at: now, is_default, head_changeset_id: head },
        history,
    }
}

/// The default branch is there, created now by `created_by` if it was missing.
pub open spec fn ensure_default_branch(repo: RepoView, created_by: Seq<char>, now: i64) -> RepoView {
    if repo.branches.contains_key(repo.default_branch) {
        repo
    } else {
        RepoView {
            branches: repo.branches.insert(
                repo.default_branch,
                new_branch_view(repo.default_branch, created_by, now, true, None, Seq::empty()),
            ),
            ..repo
        }
    }
}

/// A repository as it is created: an empty default branch `main`.
pub open spec fn fresh_repo(created_by: Seq<char>, now: i64) -> RepoView {
    ensure_default_branch(
        RepoView {
            default_branch: "main"@,
            branches: Map::empty(),
            changesets: Map::empty(),
            snapshots: Map::empty(),
        },
        created_by,
        now,
    )
}

/// The repository that a write to `repo_id` works on: the existing one, or a new one.
pub open spec fn ensured_repo(
    repos: VersionsView,
    repo_id: Seq<char>,
    created_by: Seq<char>,
    now: i64,
) -> RepoView {
    if repos.contains_key(repo_id) {
        ensure_default_branch(repos[repo_id], created_by, now)
    } else {
        fresh_repo(created_by, now)
    }
}

/// The head of the default branch.
pub open spec fn default_head(repo: RepoView) -> Option<Seq<char>> {
    if repo.branches.contains_key(repo.default_branch) {
        repo.branches[repo.default_branch].record.head_changeset_id
    } else {
        None
    }
}

/// The chain of changesets from a root to `id`, following parents, in at most
/// `fuel` steps: `None` if a changeset on the way is unknown, or if the chain
/// does not end within `fuel` steps (which happens only when it loops).
pub open spec fn lineage(cs: Map<Seq<char>, ChangesetView>, id: Seq<char>, fuel: nat) -> Option<
    Seq<Seq<char>>,
>
    decreases fuel,
{
    if fuel == 0 || !cs.contains_key(id) {
        None
    } else {
        match cs[id].parent_changeset_id {
            None => Some(seq![id]),
            Some(p) => match lineage(cs, p, (fuel - 1) as nat) {
                Some(l) => Some(l.push(id)),
                None => None,
            },
        }
    }
}

/// The chain of changesets that leads to `id` in a repository.
pub open spec fn repo_lineage(repo: RepoView, id: Seq<char>) -> Option<Seq<Seq<char>>> {
    lineage(repo.changesets, id, repo.changesets.dom().len())
}

/// The repository and the result after creating branch `branch` in it.
pub open spec fn create_branch_in_repo(
    repo: RepoView,
    repo_id: Seq<char>,
    branch: Seq<char>,
    from: Option<Seq<char>>,
    created_by: Seq<char>,
    now: i64,
) -> (RepoView, Result<BranchRecordView, VersioningErrorView>) {
    if repo.branches.contains_key(branch) {
        (repo, Err(VersioningErrorView::BranchAlreadyExists { repo_id, branch }))
    } else if from is Some && !repo.changesets.contains_key(from->0) {
        (repo, Err(VersioningErrorView::ChangesetNotFound { repo_id, changeset_id: from->0 }))
    } else {
        let head = if from is Some {
            from
        } else {
            default_head(repo)
        };
        if head is Some && repo_lineage(repo, head->0) is None {
            (repo, Err(VersioningErrorView::ChangesetNotFound { repo_id, changeset_id: head->0 }))
        } else {
            let history = if head is Some {
                repo_lineage(repo, head->0)->0
            } else {
                Seq::empty()
            };
            let b = new_branch_view(branch, created_by, now, false, head, history);
            (RepoView { branches: repo.branches.insert(branch, b), ..repo }, Ok(b.record))
        }
    }
}

/// The state of the service and the result after creating branch `branch`:
/// the repository is created, or given its default branch, in any case.
pub open spec fn create_branch_spec(
    repos: VersionsView,
    repo_id: Seq<char>,
    branch: Seq<char>,
    from: Option<Seq<char>>,
    created_by: Seq<char>,
    now: i64,
) -> (VersionsView, Result<BranchRecordView, VersioningErrorView>) {
    let repo = ensured_repo(repos, repo_id, created_by, now);
    let (r2, res) = create_branch_in_repo(repo, repo_id, branch, from, created_by, now);
    (repos.insert(repo_id, r2), res)
}

/// One delta applied to a snapshot.
pub open spec fn apply_delta(m: Map<Seq<char>, Seq<char>>, d: AssetDeltaView) -> Map<
    Seq<char>,
    Seq<char>,
> {
    match d.blob_hash {
        Some(h) => m.insert(d.path, h),
        None => m.remove(d.path),
    }
}

/// The deltas applied to a snapshot, in order.
pub open spec fn apply_deltas(m: Map<Seq<char>, Seq<char>>, ds: Seq<AssetDeltaView>) -> Map<
    Seq<char>,
    Seq<char>,
>
    decreases ds.len(),
{
    if ds.len() == 0 {
        m
    } else {
        apply_delta(apply_deltas(m, ds.drop_last()), ds.last())
    }
}

/// The snapshot recorded at changeset `id`, or the empty one.
pub open spec fn snapshot_or_empty(repo: RepoView, id: Option<Seq<char>>) -> Map<
    Seq<char>,
    Seq<char>,
> {
    if id is Some && repo.snapshots.contains_key(id->0) {
        repo.snapshots[id->0]
    } else {
        Map::empty()
    }
}

/// Whether a submission names the branch head it was made against: the head
/// itself, or `ROOT` while the branch has none.
pub open spec fn base_matches(expected: Option<Seq<char>>, got: Option<Seq<char>>) -> bool {
    match expected {
        None => got == Some("ROOT"@),
        Some(_) => got == expected,
    }
}

/// The state of a repository and the result after submitting `input` as
/// changeset `id` at time `now`.
pub open spec fn submit_spec(repo: RepoView, input: SubmitView, id: Seq<char>, now: i64) -> (
    RepoView,
    Result<ChangesetView, VersioningErrorView>,
) {
    if input.base_changeset_id is None {
        (repo, Err(VersioningErrorView::BaseChangesetRequired))
    } else if !repo.branches.contains_key(input.branch) {
        (
            repo,
            Err(
                VersioningErrorView::BranchNotFound { repo_id: input.repo_id, branch: input.branch },
            ),
        )
    } else {
        let b = repo.branches[input.branch];
        let expected = b.record.head_changeset_id;
        if !base_matches(expected, input.base_changeset_id) {
            (
                repo,
                Err(
                    VersioningErrorView::BaseChangesetMismatch {
                        repo_id: input.repo_id,
                        branch: input.branch,
                        expected,
                        got: input.base_changeset_id,
                    },
                ),
            )
        } else {
            let record = ChangesetView {
                changeset_id: id,
                repo_id: input.repo_id,
                branch: input.branch,
                parent_changeset_id: expected,
                base_changeset_id: input.base_changeset_id,
                kind: input.kind,
                rollback_of: input.rollback_of,
                author: input.author,
                message: input.message,
                created_at: now,
                assets: input.assets,
            };
            let snapshot = apply_deltas(snapshot_or_empty(repo, expected), input.assets);
            let nb = BranchView {
                record: BranchRecordView { head_changeset_id: Some(id), ..b.record },
                history: b.history.push(id),
            };
            (
                RepoView {
                    branches: repo.branches.insert(input.branch, nb),
                    changesets: repo.changesets.insert(id, record),
                    snapshots: repo.snapshots.insert(id, snapshot),
                    ..repo
                },
                Ok(record),
            )
        }
    }
}

/// The state of the service and the result after submitting `input`.
pub open spec fn submit_changeset_spec(repos: VersionsView, input: SubmitView, id: Seq<char>, now: i64) -> (
    VersionsView,
    Result<ChangesetView, VersioningErrorView>,
) {
    let repo = ensured_repo(repos, input.repo_id, input.author, now);
    let (r2, res) = submit_spec(repo, input, id, now);
    (repos.insert(input.repo_id, r2), res)
}

/// The limit of a history page, between 1 and 200.
pub open spec fn clamp_limit(limit: usize) -> int {
    if limit < 1 {
        1
    } else if limit > 200 {
        200
    } else {
        limit as int
    }
}

/// The records of the ids that the repository knows, in order.
pub open spec fn known_records(ids: Seq<Seq<char>>, cs: Map<Seq<char>, ChangesetView>) -> Seq<
    ChangesetView,
>
    decreases ids.len(),
{
    if ids.len() == 0 {
        Seq::empty()
    } else {
        let rest = known_records(ids.drop_last(), cs);
        if cs.contains_key(ids.last()) {
            rest.push(cs[ids.last()])
        } else {
            rest
        }
    }
}

/// The ids of one page of a history: newest first, from `cursor`, at most the clamped limit.
pub open spec fn page_ids(history: Seq<Seq<char>>, limit: usize, cursor: usize) -> Seq<Seq<char>> {
    let rev = history.reverse();
    let lo = if cursor as int <= rev.len() {
        cursor as int
    } else {
        rev.len() as int
    };
    let hi = if lo + clamp_limit(limit) <= rev.len() {
        lo + clamp_limit(limit)
    } else {
        rev.len() as int
    };
    rev.subrange(lo, hi)
}

/// A page: its records and the cursor of the next page, if there is one.
pub open spec fn history_page_spec(
    history: Seq<Seq<char>>,
    cs: Map<Seq<char>, ChangesetView>,
    limit: usize,
    cursor: usize,
) -> (Seq<ChangesetView>, Option<int>) {
    let items = known_records(page_ids(history, limit, cursor), cs);
    let consumed = cursor + items.len();
    (items, if consumed < history.len() {
        Some(consumed)
    } else {
        None
    })
}

/// The paths on which two snapshots differ, each with its content in `target`
/// (`None` where `target` lacks the path).
pub open spec fn diff_map(current: Map<Seq<char>, Seq<char>>, target: Map<Seq<char>, Seq<char>>) -> Map<
    Seq<char>,
    Option<Seq<char>>,
> {
    Map::new(
        |p: Seq<char>|
            (current.contains_key(p) || target.contains_key(p)) && current.get(p) != target.get(
                p,
            ),
        |p: Seq<char>| target.get(p),
    )
}

/// The base of a rollback of `branch` to `target`: its head, if the target is
/// an earlier changeset of its history with a recorded snapshot.
pub open spec fn rollback_base(repo: RepoView, repo_id: Seq<char>, branch: Seq<char>, target: Seq<char>) -> Result<
    Seq<char>,
    VersioningErrorView,
> {
    if !repo.branches.contains_key(branch) {
        Err(VersioningErrorView::BranchNotFound { repo_id, branch })
    } else {
        let b = repo.branches[branch];
        let invalid = VersioningErrorView::InvalidRollbackTarget {
            repo_id,
            branch,
            target_changeset_id: target,
        };
        match b.record.head_changeset_id {
            None => Err(invalid),
            Some(h) => if h == target || !b.history.contains(target) {
                Err(invalid)
            } else if !repo.snapshots.contains_key(target) {
                Err(VersioningErrorView::ChangesetNotFound { repo_id, changeset_id: target })
            } else {
                Ok(h)
            },
        }
    }
}

/// The changeset whose snapshot a sync of `branch` gives: `to`, if the branch's
/// history holds it, or the branch's head.
pub open spec fn sync_target(repo: RepoView, repo_id: Seq<char>, branch: Seq<char>, to: Option<Seq<char>>) -> Result<
    Option<Seq<char>>,
    VersioningErrorView,
> {
    if !repo.branches.contains_key(branch) {
        Err(VersioningErrorView::BranchNotFound { repo_id, branch })
    } else {
        let b = repo.branches[branch];
        match to {
            Some(id) => if b.history.contains(id) {
                Ok(Some(id))
            } else {
                Err(VersioningErrorView::ChangesetNotFound { repo_id, changeset_id: id })
            },
            None => Ok(b.record.head_changeset_id),
        }
    }
}

/// The record of each branch, by name.
pub open spec fn branch_records(repo: RepoView) -> Map<Seq<char>, BranchRecordView> {
    repo.branches.map_values(|b: BranchView| b.record)
}

pub open spec fn records_view(s: Seq<ChangesetRecord>) -> Seq<ChangesetView> {
    s.map_values(|c: ChangesetRecord| c@)
}

pub open spec fn opt_usize(o: Option<usize>) -> Option<int> {
    match o {
        Some(n) => Some(n as int),
        None => None,
    }
}

pub open spec fn opt_str_ref(o: Option<&str>) -> Option<Seq<char>> {
    match o {
        Some(s) => Some(s@),
        None => None,
    }
}

} // verus!
