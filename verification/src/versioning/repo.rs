//! The state of one repository and the operations on it.
use vstd::prelude::*;
use crate::keyed::{
    Keyed, has_key, unique_keys, to_map, find_key, lemma_index_of_key, lemma_to_map_empty,
    lemma_to_map_push, lemma_to_map_update, lemma_to_map_remove, lemma_to_map_len,
};
use crate::versioning::model::{
    AssetDelta, AssetDeltaView, BranchRecord, BranchView, ChangesetRecord, ChangesetView, RepoView,
    SnapshotEntry, opt_str, strings_view, clone_opt_string, clone_strings, deltas_view,
    ensure_default_branch, fresh_repo, default_head, lineage, repo_lineage, apply_delta,
    apply_deltas, snapshot_or_empty, SubmitChangesetInput, VersioningError, VersioningErrorView,
    submit_spec, result_view, base_matches, opt_string_eq, ROOT_BASE_CHANGESET_ID,
    create_branch_in_repo, new_branch_view, diff_map, opt_str_ref, HistoryPage, history_page_spec,
    records_view, opt_usize, page_ids, known_records, clamp_limit, SyncSnapshot, sync_target,
    RollbackPlan, rollback_base, branch_records,
};
use crate::order::{sort_by_key, sorted_by_key, lemma_multiset_keeps_map};
use crate::keyed::{upsert, replace_at};
use crate::text::str_eq;

verus! {

/// A branch: its record and the ids of the changesets that led to its head.
pub struct BranchState {
    pub record: BranchRecord,
    pub history: Vec<String>,
}

impl Keyed for BranchState {
    type Model = BranchView;

    open spec fn key_of(&self) -> Seq<char> {
        self.record.name@
    }

    open spec fn model(&self) -> BranchView {
        BranchView { record: self.record@, history: strings_view(self.history@) }
    }

    fn key(&self) -> (k: &str) {
        self.record.name.as_str()
    }
}

/// The assets of the repository as of one changeset.
#[derive(Debug)]
pub struct SnapshotRecord {
    pub changeset_id: String,
    pub entries: Vec<SnapshotEntry>,
}

impl Keyed for SnapshotRecord {
    type Model = Map<Seq<char>, Seq<char>>;

    open spec fn key_of(&self) -> Seq<char> {
        self.changeset_id@
    }

    open spec fn model(&self) -> Map<Seq<char>, Seq<char>> {
        to_map(self.entries@)
    }

    fn key(&self) -> (k: &str) {
        self.changeset_id.as_str()
    }
}

/// One repository.
pub struct RepoState {
    pub repo_id: String,
    pub default_branch: String,
    pub branches: Vec<BranchState>,
    pub changesets: Vec<ChangesetRecord>,
    pub snapshots: Vec<SnapshotRecord>,
}

impl Keyed for RepoState {
    type Model = RepoView;

    open spec fn key_of(&self) -> Seq<char> {
        self.repo_id@
    }

    open spec fn model(&self) -> RepoView {
        RepoView {
            default_branch: self.default_branch@,
            branches: to_map(self.branches@),
            changesets: to_map(self.changesets@),
            snapshots: to_map(self.snapshots@),
        }
    }

    fn key(&self) -> (k: &str) {
        self.repo_id.as_str()
    }
}

impl RepoState {
    /// Every table of the repository has unique keys.
    pub open spec fn wf(&self) -> bool {
        &&& unique_keys(self.branches@)
        &&& unique_keys(self.changesets@)
        &&& unique_keys(self.snapshots@)
        &&& forall|i: int|
            0 <= i < self.snapshots@.len() ==> unique_keys(#[trigger] self.snapshots@[i].entries@)
    }

    /// A new repository with an empty default branch `main`.
    pub fn new(repo_id: &str, created_by: &str, now: i64) -> (r: RepoState)
        ensures
            r.wf(),
            r.key_of() == repo_id@,
            r.model() == fresh_repo(created_by@, now),
    {
        let mut r = RepoState {
            repo_id: repo_id.to_owned(),
            default_branch: crate::versioning::model::DEFAULT_BRANCH_NAME.to_owned(),
            branches: Vec::new(),
            changesets: Vec::new(),
            snapshots: Vec::new(),
        };
        proof {
            reveal_strlit("main");
            lemma_to_map_empty(r.branches@);
            lemma_to_map_empty(r.changesets@);
            lemma_to_map_empty(r.snapshots@);
        }
        r.ensure_default_branch(created_by, now);
        r
    }

    /// Creates the default branch, empty, if it is missing.
    pub fn ensure_default_branch(&mut self, created_by: &str, now: i64)
        requires
            old(self).wf(),
        ensures
            final(self).wf(),
            final(self).repo_id == old(self).repo_id,
            final(self).model() == ensure_default_branch(old(self).model(), created_by@, now),
    {
        if find_key(&self.branches, self.default_branch.as_str()).is_some() {
            return;
        }
        let b = BranchState {
            record: BranchRecord {
                name: self.default_branch.clone(),
                created_by: created_by.to_owned(),
                created_at: now,
                is_default: true,
                head_changeset_id: None,
            },
            history: Vec::new(),
        };
        proof {
            lemma_to_map_push(self.branches@, b);
            assert(strings_view(b.history@) =~= Seq::<Seq<char>>::empty());
        }
        self.branches.push(b);
        proof {
            assert(self.model().branches == ensure_default_branch(old(self).model(), created_by@, now).branches);
        }
    }

    /// The head of the default branch.
    pub fn default_head(&self) -> (r: Option<String>)
        requires
            self.wf(),
        ensures
            opt_str(r) == default_head(self.model()),
    {
        match find_key(&self.branches, self.default_branch.as_str()) {
            Some(i) => {
                proof {
                    lemma_index_of_key(self.branches@, i as int);
                }
                clone_opt_string(&self.branches[i].record.head_changeset_id)
            },
            None => None,
        }
    }

    /// The ids of the changesets from a root to `changeset_id`, oldest first.
    pub fn lineage_to(&self, changeset_id: &str) -> (r: Option<Vec<String>>)
        requires
            self.wf(),
        ensures
            match r {
                Some(v) => repo_lineage(self.model(), changeset_id@) == Some(strings_view(v@)),
                None => repo_lineage(self.model(), changeset_id@) is None,
            },
    {
        let ghost cs = to_map(self.changesets@);
        proof {
            lemma_to_map_len(self.changesets@);
        }
        let ghost total = self.changesets@.len();
        let mut chain: Vec<String> = Vec::new();
        let mut current: Option<String> = Some(changeset_id.to_owned());
        let mut fuel: usize = self.changesets.len();
        while current.is_some() && fuel > 0
            invariant
                self.wf(),
                cs == to_map(self.changesets@),
                total == cs.dom().len(),
                fuel <= total,
                lineage(cs, changeset_id@, total) == match current {
                    None => Some(strings_view(chain@)),
                    Some(c) => match lineage(cs, c@, fuel as nat) {
                        Some(l) => Some(l + strings_view(chain@)),
                        None => None,
                    },
                },
            decreases fuel,
        {
            let id = current.unwrap();
            match find_key(&self.changesets, id.as_str()) {
                None => {
                    return None;
                },
                Some(i) => {
                    proof {
                        lemma_index_of_key(self.changesets@, i as int);
                    }
                    let parent = clone_opt_string(&self.changesets[i].parent_changeset_id);
                    let ghost old_chain = chain@;
                    chain.insert(0, id);
                    proof {
                        assert(strings_view(chain@) =~= seq![id@] + strings_view(old_chain));
                        match lineage(cs, id@, fuel as nat) {
                            Some(l) => {
                                assert(l + strings_view(chain@) =~= lineage(cs, id@, fuel as nat)->0
                                    + strings_view(chain@));
                            },
                            None => {},
                        }
                        match &parent {
                            None => {
                                assert(seq![id@] + strings_view(old_chain) =~= strings_view(chain@));
                            },
                            Some(p) => {
                                match lineage(cs, p@, (fuel - 1) as nat) {
                                    Some(l) => {
                                        assert(l.push(id@) + strings_view(old_chain) =~= l
                                            + strings_view(chain@));
                                    },
                                    None => {},
                                }
                            },
                        }
                    }
                    current = parent;
                    fuel = fuel - 1;
                },
            }
        }
        if current.is_some() {
            return None;
        }
        Some(chain)
    }

    /// A copy of the entries of the snapshot at `id`, or none.
    pub fn snapshot_entries(&self, id: &Option<String>) -> (r: Vec<SnapshotEntry>)
        requires
            self.wf(),
        ensures
            unique_keys(r@),
            to_map(r@) == snapshot_or_empty(self.model(), opt_str(*id)),
    {
        match id {
            None => {
                let r: Vec<SnapshotEntry> = Vec::new();
                proof {
                    lemma_to_map_empty(r@);
                }
                r
            },
            Some(cid) => match find_key(&self.snapshots, cid.as_str()) {
                None => {
                    let r: Vec<SnapshotEntry> = Vec::new();
                    proof {
                        lemma_to_map_empty(r@);
                    }
                    r
                },
                Some(i) => {
                    proof {
                        lemma_index_of_key(self.snapshots@, i as int);
                    }
                    let r = clone_entries(&self.snapshots[i].entries);
                    proof {
                        assert(unique_keys(self.snapshots@[i as int].entries@));
                    }
                    r
                },
            },
        }
    }
}

impl RepoState {
    /// Records `input` as changeset `id`, made at `now`, on its branch, if it
    /// names the branch's head as its base.
    pub fn submit_internal(&mut self, input: SubmitChangesetInput, id: String, now: i64) -> (r: Result<
        ChangesetRecord,
        VersioningError,
    >)
        requires
            old(self).wf(),
        ensures
            final(self).wf(),
            final(self).repo_id == old(self).repo_id,
            (final(self).model(), result_view(r)) == submit_spec(old(self).model(), input@, id@, now),
    {
        if input.base_changeset_id.is_none() {
            return Err(VersioningError::BaseChangesetRequired);
        }
        let bi = match find_key(&self.branches, input.branch.as_str()) {
            None => {
                return Err(
                    VersioningError::BranchNotFound { repo_id: input.repo_id, branch: input.branch },
                );
            },
            Some(i) => i,
        };
        proof {
            lemma_index_of_key(self.branches@, bi as int);
        }
        let expected = clone_opt_string(&self.branches[bi].record.head_changeset_id);
        let matches = match &expected {
            None => match &input.base_changeset_id {
                Some(b) => str_eq(b.as_str(), ROOT_BASE_CHANGESET_ID),
                None => false,
            },
            Some(_) => opt_string_eq(&input.base_changeset_id, &expected),
        };
        proof {
            reveal_strlit("ROOT");
            assert(matches == base_matches(opt_str(expected), opt_str(input.base_changeset_id)));
        }
        if !matches {
            return Err(
                VersioningError::BaseChangesetMismatch {
                    repo_id: input.repo_id,
                    branch: input.branch,
                    expected,
                    got: input.base_changeset_id,
                },
            );
        }
        let mut snap = self.snapshot_entries(&expected);
        apply_deltas_to_entries(&mut snap, &input.assets);
        let record = ChangesetRecord {
            changeset_id: id.clone(),
            repo_id: input.repo_id,
            branch: input.branch,
            parent_changeset_id: clone_opt_string(&expected),
            base_changeset_id: input.base_changeset_id,
            kind: input.kind,
            rollback_of: input.rollback_of,
            author: input.author,
            message: input.message,
            created_at: now,
            assets: input.assets,
        };
        let result = record.clone();
        let ghost m0 = self.model();
        let srec = SnapshotRecord { changeset_id: id.clone(), entries: snap };
        upsert(&mut self.snapshots, srec);
        upsert(&mut self.changesets, record);
        let old_b = self.branches.remove(bi);
        proof {
            lemma_to_map_remove(old(self).branches@, bi as int);
        }
        self.branches.insert(bi, old_b);
        proof {
            assert(self.branches@ =~= old(self).branches@);
        }
        let mut history = clone_strings(&self.branches[bi].history);
        history.push(id.clone());
        let nb = BranchState {
            record: BranchRecord {
                name: self.branches[bi].record.name.clone(),
                created_by: self.branches[bi].record.created_by.clone(),
                created_at: self.branches[bi].record.created_at,
                is_default: self.branches[bi].record.is_default,
                head_changeset_id: Some(id),
            },
            history,
        };
        proof {
            assert(strings_view(nb.history@) =~= strings_view(old(self).branches@[bi as int].history@).push(nb.record.head_changeset_id->0@));
        }
        replace_at(&mut self.branches, bi, nb);
        proof {
            assert forall|i: int| 0 <= i < self.snapshots@.len() implies unique_keys(
                #[trigger] self.snapshots@[i].entries@,
            ) by {
                if self.snapshots@[i] != srec {
                    let j = choose|j: int| 0 <= j < old(self).snapshots@.len() && old(self).snapshots@[j] == self.snapshots@[i];
                    assert(unique_keys(old(self).snapshots@[j].entries@));
                }
            }
            let (m2, res) = submit_spec(m0, input@, id@, now);
            assert(self.model().branches =~= m2.branches);
            assert(self.model().changesets =~= m2.changesets);
            assert(self.model().snapshots =~= m2.snapshots);
        }
        Ok(result)
    }
}

impl RepoState {
    /// Creates branch `branch`, headed at `from` or at the default branch's head.
    pub fn add_branch(
        &mut self,
        branch: &str,
        from: Option<&str>,
        created_by: &str,
        now: i64,
    ) -> (r: Result<BranchRecord, VersioningError>)
        requires
            old(self).wf(),
        ensures
            final(self).wf(),
            final(self).repo_id == old(self).repo_id,
            (final(self).model(), result_view(r)) == create_branch_in_repo(
                old(self).model(),
                old(self).repo_id@,
                branch@,
                opt_str_ref(from),
                created_by@,
                now,
            ),
    {
        if find_key(&self.branches, branch).is_some() {
            return Err(
                VersioningError::BranchAlreadyExists {
                    repo_id: self.repo_id.clone(),
                    branch: branch.to_owned(),
                },
            );
        }
        let head: Option<String> = match from {
            Some(id) => {
                if find_key(&self.changesets, id).is_none() {
                    return Err(
                        VersioningError::ChangesetNotFound {
                            repo_id: self.repo_id.clone(),
                            changeset_id: id.to_owned(),
                        },
                    );
                }
                Some(id.to_owned())
            },
            None => self.default_head(),
        };
        let history: Vec<String> = match &head {
            Some(head_id) => match self.lineage_to(head_id.as_str()) {
                Some(h) => h,
                None => {
                    return Err(
                        VersioningError::ChangesetNotFound {
                            repo_id: self.repo_id.clone(),
                            changeset_id: head_id.clone(),
                        },
                    );
                },
            },
            None => Vec::new(),
        };
        let record = BranchRecord {
            name: branch.to_owned(),
            created_by: created_by.to_owned(),
            created_at: now,
            is_default: false,
            head_changeset_id: head,
        };
        let result = record.clone();
        let b = BranchState { record, history };
        proof {
            if b.record.head_changeset_id is None {
                assert(strings_view(b.history@) =~= Seq::<Seq<char>>::empty());
            }
            lemma_to_map_push(self.branches@, b);
        }
        self.branches.push(b);
        Ok(result)
    }
}

/// The entries on which two snapshots differ, each with its content in `tgt`.
pub fn diff_entries(cur: &Vec<SnapshotEntry>, tgt: &Vec<SnapshotEntry>) -> (r: Vec<AssetDelta>)
    requires
        unique_keys(cur@),
        unique_keys(tgt@),
    ensures
        unique_keys(r@),
        to_map(r@) == diff_map(to_map(cur@), to_map(tgt@)),
{
    let ghost cm = to_map(cur@);
    let ghost tm = to_map(tgt@);
    let ghost dm = diff_map(cm, tm);
    let mut r: Vec<AssetDelta> = Vec::new();
    proof {
        lemma_to_map_empty(r@);
        assert(to_map(r@) =~= Map::new(
            |p: Seq<char>| (exists|j: int| 0 <= j < 0 && cur@[j].key_of() == p) && dm.contains_key(p),
            |p: Seq<char>| dm[p],
        ));
    }
    let mut i: usize = 0;
    while i < cur.len()
        invariant
            i <= cur@.len(),
            unique_keys(cur@),
            unique_keys(tgt@),
            cm == to_map(cur@),
            tm == to_map(tgt@),
            dm == diff_map(cm, tm),
            unique_keys(r@),
            to_map(r@) == Map::new(
                |p: Seq<char>| (exists|j: int| 0 <= j < i && #[trigger] cur@[j].key_of() == p) && dm.contains_key(p),
                |p: Seq<char>| dm[p],
            ),
        decreases cur@.len() - i,
    {
        let e = &cur[i];
        proof {
            lemma_index_of_key(cur@, i as int);
        }
        let t = find_key(tgt, e.path.as_str());
        let same = match t {
            Some(j) => str_eq(tgt[j].blob_hash.as_str(), e.blob_hash.as_str()),
            None => false,
        };
        let ghost p = e.path@;
        proof {
            if let Some(j) = t {
                lemma_index_of_key(tgt@, j as int);
            }
            assert(same == (tm.get(p) == cm.get(p)));
        }
        if !same {
            let d = AssetDelta {
                path: e.path.clone(),
                blob_hash: match t {
                    Some(j) => Some(tgt[j].blob_hash.clone()),
                    None => None,
                },
            };
            proof {
                if has_key(r@, p) {
                    assert(to_map(r@).contains_key(p));
                    let j = choose|j: int| 0 <= j < i && #[trigger] cur@[j].key_of() == p;
                    assert(cur@[j].key_of() == cur@[i as int].key_of());
                }
                lemma_to_map_push(r@, d);
            }
            r.push(d);
        }
        proof {
            let next = Map::new(
                |q: Seq<char>| (exists|j: int| 0 <= j < i + 1 && #[trigger] cur@[j].key_of() == q) && dm.contains_key(q),
                |q: Seq<char>| dm[q],
            );
            assert forall|q: Seq<char>| #[trigger] next.contains_key(q) <==> to_map(r@).contains_key(q) by {
                if next.contains_key(q) && q != p {
                    let j = choose|j: int| 0 <= j < i + 1 && #[trigger] cur@[j].key_of() == q;
                    assert(j < i);
                }
                if to_map(r@).contains_key(q) && q != p {
                    let j = choose|j: int| 0 <= j < i && #[trigger] cur@[j].key_of() == q;
                    assert(0 <= j < i + 1 && cur@[j].key_of() == q);
                }
                if q == p {
                    assert(cur@[i as int].key_of() == q);
                }
            }
            assert(to_map(r@) =~= next);
        }
        i = i + 1;
    }
    let mut k: usize = 0;
    while k < tgt.len()
        invariant
            k <= tgt@.len(),
            unique_keys(cur@),
            unique_keys(tgt@),
            cm == to_map(cur@),
            tm == to_map(tgt@),
            dm == diff_map(cm, tm),
            unique_keys(r@),
            to_map(r@) == Map::new(
                |p: Seq<char>| (cm.contains_key(p) || (exists|j: int| 0 <= j < k && #[trigger] tgt@[j].key_of() == p)) && dm.contains_key(p),
                |p: Seq<char>| dm[p],
            ),
        decreases tgt@.len() - k,
    {
        let e = &tgt[k];
        proof {
            lemma_index_of_key(tgt@, k as int);
        }
        let ghost p = e.path@;
        if find_key(cur, e.path.as_str()).is_none() {
            let d = AssetDelta { path: e.path.clone(), blob_hash: Some(e.blob_hash.clone()) };
            proof {
                assert(!cm.contains_key(p));
                if has_key(r@, p) {
                    assert(to_map(r@).contains_key(p));
                    let j = choose|j: int| 0 <= j < k && #[trigger] tgt@[j].key_of() == p;
                    assert(tgt@[j].key_of() == tgt@[k as int].key_of());
                }
                lemma_to_map_push(r@, d);
            }
            r.push(d);
        }
        proof {
            let next = Map::new(
                |q: Seq<char>| (cm.contains_key(q) || (exists|j: int| 0 <= j < k + 1 && #[trigger] tgt@[j].key_of() == q)) && dm.contains_key(q),
                |q: Seq<char>| dm[q],
            );
            assert forall|q: Seq<char>| #[trigger] next.contains_key(q) <==> to_map(r@).contains_key(q) by {
                if next.contains_key(q) && q != p && !cm.contains_key(q) {
                    let j = choose|j: int| 0 <= j < k + 1 && #[trigger] tgt@[j].key_of() == q;
                    assert(j < k);
                }
                if to_map(r@).contains_key(q) && q != p && !cm.contains_key(q) {
                    let j = choose|j: int| 0 <= j < k && #[trigger] tgt@[j].key_of() == q;
                    assert(0 <= j < k + 1 && tgt@[j].key_of() == q);
                }
                if q == p {
                    assert(tgt@[k as int].key_of() == q);
                }
            }
            assert(to_map(r@) =~= next);
        }
        k = k + 1;
    }
    proof {
        assert forall|q: Seq<char>| #[trigger] dm.contains_key(q) implies (cm.contains_key(q) || (exists|j: int| 0 <= j < tgt@.len() && #[trigger] tgt@[j].key_of() == q)) by {
            if !cm.contains_key(q) {
                assert(tm.contains_key(q));
                let j = choose|j: int| 0 <= j < tgt@.len() && #[trigger] tgt@[j].key_of() == q;
            }
        }
        assert(to_map(r@) =~= dm);
    }
    r
}

/// Whether the list holds `x`.
pub fn contains_str(v: &Vec<String>, x: &str) -> (r: bool)
    ensures
        r == strings_view(v@).contains(x@),
{
    let mut i: usize = 0;
    while i < v.len()
        invariant
            i <= v@.len(),
            forall|j: int| 0 <= j < i ==> #[trigger] v@[j]@ != x@,
        decreases v@.len() - i,
    {
        if str_eq(v[i].as_str(), x) {
            assert(strings_view(v@)[i as int] == x@);
            return true;
        }
        i = i + 1;
    }
    proof {
        if strings_view(v@).contains(x@) {
            let j = choose|j: int| 0 <= j < strings_view(v@).len() && strings_view(v@)[j] == x@;
            assert(v@[j]@ == x@);
        }
    }
    false
}

impl RepoState {
    /// One page of the history of `branch`, newest first.
    pub fn history_page(&self, branch: &str, limit: usize, cursor: usize) -> (r: Result<
        HistoryPage,
        VersioningError,
    >)
        requires
            self.wf(),
        ensures
            match r {
                Ok(p) => {
                    let m = self.model();
                    &&& m.branches.contains_key(branch@)
                    &&& records_view(p.items@) == history_page_spec(
                        m.branches[branch@].history,
                        m.changesets,
                        limit,
                        cursor,
                    ).0
                    &&& opt_usize(p.next_cursor) == history_page_spec(
                        m.branches[branch@].history,
                        m.changesets,
                        limit,
                        cursor,
                    ).1
                },
                Err(e) => !self.model().branches.contains_key(branch@) && e@
                    == VersioningErrorView::BranchNotFound { repo_id: self.repo_id@, branch: branch@ },
            },
    {
        let bi = match find_key(&self.branches, branch) {
            Some(i) => i,
            None => {
                return Err(
                    VersioningError::BranchNotFound {
                        repo_id: self.repo_id.clone(),
                        branch: branch.to_owned(),
                    },
                );
            },
        };
        proof {
            lemma_index_of_key(self.branches@, bi as int);
        }
        let h = &self.branches[bi].history;
        let ghost hv = strings_view(h@);
        let ghost cs = to_map(self.changesets@);
        let total = h.len();
        let lim: usize = if limit < 1 {
            1
        } else if limit > 200 {
            200
        } else {
            limit
        };
        let lo: usize = if cursor <= total {
            cursor
        } else {
            total
        };
        let hi: usize = if lim <= total - lo {
            lo + lim
        } else {
            total
        };
        let ghost ids = page_ids(hv, limit, cursor);
        proof {
            assert(ids =~= hv.reverse().subrange(lo as int, hi as int));
        }
        let mut items: Vec<ChangesetRecord> = Vec::new();
        let mut k: usize = lo;
        while k < hi
            invariant
                self.wf(),
                lo <= k <= hi <= total,
                total == h@.len(),
                hv == strings_view(h@),
                cs == to_map(self.changesets@),
                ids == hv.reverse().subrange(lo as int, hi as int),
                records_view(items@) == known_records(ids.subrange(0, k - lo), cs),
                items@.len() <= k - lo,
            decreases hi - k,
        {
            let id = &h[total - 1 - k];
            proof {
                assert(ids.subrange(0, k + 1 - lo).drop_last() =~= ids.subrange(0, k - lo));
                assert(ids.subrange(0, k + 1 - lo).last() == id@);
            }
            match find_key(&self.changesets, id.as_str()) {
                Some(ci) => {
                    proof {
                        lemma_index_of_key(self.changesets@, ci as int);
                    }
                    let c = self.changesets[ci].clone();
                    let ghost before = items@;
                    items.push(c);
                    proof {
                        assert(records_view(items@) =~= records_view(before).push(c@));
                    }
                },
                None => {},
            }
            k = k + 1;
        }
        proof {
            assert(ids.subrange(0, hi - lo) =~= ids);
        }
        let next_cursor = if items.len() == 0 {
            if cursor < total {
                Some(cursor)
            } else {
                None
            }
        } else {
            if cursor + items.len() < total {
                Some(cursor + items.len())
            } else {
                None
            }
        };
        Ok(HistoryPage { items, next_cursor })
    }

    /// The snapshot of `branch` at `to`, or at its head.
    pub fn sync(&self, branch: &str, to: Option<&str>) -> (r: Result<SyncSnapshot, VersioningError>)
        requires
            self.wf(),
        ensures
            match r {
                Ok(s) => {
                    &&& sync_target(self.model(), self.repo_id@, branch@, opt_str_ref(to)) == Ok::<
                        Option<Seq<char>>,
                        VersioningErrorView,
                    >(opt_str(s.changeset_id))
                    &&& s.repo_id@ == self.repo_id@
                    &&& s.branch@ == branch@
                    &&& unique_keys(s.assets@)
                    &&& sorted_by_key(s.assets@)
                    &&& to_map(s.assets@) == snapshot_or_empty(self.model(), opt_str(s.changeset_id))
                },
                Err(e) => sync_target(self.model(), self.repo_id@, branch@, opt_str_ref(to)) == Err::<
                    Option<Seq<char>>,
                    VersioningErrorView,
                >(e@),
            },
    {
        let bi = match find_key(&self.branches, branch) {
            Some(i) => i,
            None => {
                return Err(
                    VersioningError::BranchNotFound {
                        repo_id: self.repo_id.clone(),
                        branch: branch.to_owned(),
                    },
                );
            },
        };
        proof {
            lemma_index_of_key(self.branches@, bi as int);
        }
        let chosen: Option<String> = match to {
            Some(id) => {
                if !contains_str(&self.branches[bi].history, id) {
                    return Err(
                        VersioningError::ChangesetNotFound {
                            repo_id: self.repo_id.clone(),
                            changeset_id: id.to_owned(),
                        },
                    );
                }
                Some(id.to_owned())
            },
            None => clone_opt_string(&self.branches[bi].record.head_changeset_id),
        };
        let entries = self.snapshot_entries(&chosen);
        let ghost before = entries@;
        let assets = sort_by_key(entries);
        proof {
            lemma_multiset_keeps_map(before, assets@);
        }
        Ok(
            SyncSnapshot {
                repo_id: self.repo_id.clone(),
                branch: branch.to_owned(),
                changeset_id: chosen,
                assets,
            },
        )
    }

    /// The changes that bring `branch` back to `target`.
    pub fn rollback_plan(&self, branch: &str, target: &str) -> (r: Result<RollbackPlan, VersioningError>)
        requires
            self.wf(),
        ensures
            match r {
                Ok(p) => {
                    let m = self.model();
                    &&& rollback_base(m, self.repo_id@, branch@, target@) == Ok::<
                        Seq<char>,
                        VersioningErrorView,
                    >(p.base_changeset_id@)
                    &&& p.repo_id@ == self.repo_id@
                    &&& p.branch@ == branch@
                    &&& p.target_changeset_id@ == target@
                    &&& unique_keys(p.assets@)
                    &&& sorted_by_key(p.assets@)
                    &&& to_map(p.assets@) == diff_map(
                        snapshot_or_empty(m, Some(p.base_changeset_id@)),
                        m.snapshots[target@],
                    )
                },
                Err(e) => rollback_base(self.model(), self.repo_id@, branch@, target@) == Err::<
                    Seq<char>,
                    VersioningErrorView,
                >(e@),
            },
    {
        let bi = match find_key(&self.branches, branch) {
            Some(i) => i,
            None => {
                return Err(
                    VersioningError::BranchNotFound {
                        repo_id: self.repo_id.clone(),
                        branch: branch.to_owned(),
                    },
                );
            },
        };
        proof {
            lemma_index_of_key(self.branches@, bi as int);
        }
        let invalid = VersioningError::InvalidRollbackTarget {
            repo_id: self.repo_id.clone(),
            branch: branch.to_owned(),
            target_changeset_id: target.to_owned(),
        };
        let head_id = match &self.branches[bi].record.head_changeset_id {
            None => {
                return Err(invalid);
            },
            Some(h) => h.clone(),
        };
        if str_eq(head_id.as_str(), target) {
            return Err(invalid);
        }
        if !contains_str(&self.branches[bi].history, target) {
            return Err(invalid);
        }
        let ti = match find_key(&self.snapshots, target) {
            Some(i) => i,
            None => {
                return Err(
                    VersioningError::ChangesetNotFound {
                        repo_id: self.repo_id.clone(),
                        changeset_id: target.to_owned(),
                    },
                );
            },
        };
        proof {
            lemma_index_of_key(self.snapshots@, ti as int);
        }
        let current = self.snapshot_entries(&Some(head_id.clone()));
        let diff = diff_entries(&current, &self.snapshots[ti].entries);
        let ghost before = diff@;
        let assets = sort_by_key(diff);
        proof {
            lemma_multiset_keeps_map(before, assets@);
        }
        Ok(
            RollbackPlan {
                repo_id: self.repo_id.clone(),
                branch: branch.to_owned(),
                base_changeset_id: head_id,
                target_changeset_id: target.to_owned(),
                assets,
            },
        )
    }

    /// The records of all branches, sorted by name.
    pub fn branch_list(&self) -> (r: Vec<BranchRecord>)
        requires
            self.wf(),
        ensures
            unique_keys(r@),
            sorted_by_key(r@),
            to_map(r@) == branch_records(self.model()),
    {
        let mut records: Vec<BranchRecord> = Vec::new();
        let mut i: usize = 0;
        while i < self.branches.len()
            invariant
                self.wf(),
                i <= self.branches@.len(),
                records@.len() == i,
                forall|j: int| 0 <= j < i ==> (#[trigger] records@[j])@ == self.branches@[j].record@,
            decreases self.branches@.len() - i,
        {
            records.push(self.branches[i].record.clone());
            i = i + 1;
        }
        proof {
            assert forall|a: int, b: int|
                0 <= a < records@.len() && 0 <= b < records@.len() && #[trigger] records@[a].key_of()
                    == #[trigger] records@[b].key_of() implies a == b by {
                assert(self.branches@[a].key_of() == records@[a].key_of());
                assert(self.branches@[b].key_of() == records@[b].key_of());
            }
            assert forall|k: Seq<char>| has_key(records@, k) <==> has_key(self.branches@, k) by {
                if has_key(records@, k) {
                    let j = choose|j: int| 0 <= j < records@.len() && #[trigger] records@[j].key_of() == k;
                    assert(self.branches@[j].key_of() == k);
                }
                if has_key(self.branches@, k) {
                    let j = choose|j: int| 0 <= j < self.branches@.len() && #[trigger] self.branches@[j].key_of() == k;
                    assert(records@[j].key_of() == k);
                }
            }
            assert forall|k: Seq<char>| #[trigger] to_map(records@).contains_key(k) implies to_map(records@)[k] == branch_records(self.model())[k] by {
                let j = crate::keyed::index_of_key(records@, k);
                lemma_index_of_key(records@, j);
                assert(self.branches@[j].key_of() == k);
                lemma_index_of_key(self.branches@, j);
            }
            assert(to_map(records@) =~= branch_records(self.model()));
        }
        let ghost before = records@;
        let r = sort_by_key(records);
        proof {
            lemma_multiset_keeps_map(before, r@);
        }
        r
    }
}

pub fn clone_entries(v: &Vec<SnapshotEntry>) -> (r: Vec<SnapshotEntry>)
    ensures
        r@ == v@,
{
    let mut r: Vec<SnapshotEntry> = Vec::new();
    let mut i: usize = 0;
    while i < v.len()
        invariant
            i <= v@.len(),
            r@ == v@.subrange(0, i as int),
        decreases v@.len() - i,
    {
        r.push(v[i].clone());
        assert(r@ =~= v@.subrange(0, i + 1));
        i = i + 1;
    }
    assert(v@.subrange(0, v@.len() as int) =~= v@);
    r
}

/// Applies one delta to the entries of a snapshot.
pub fn apply_delta_to_entries(entries: &mut Vec<SnapshotEntry>, d: &AssetDelta)
    requires
        unique_keys(old(entries)@),
    ensures
        unique_keys(final(entries)@),
        to_map(final(entries)@) == apply_delta(to_map(old(entries)@), d@),
{
    let found = find_key(entries, d.path.as_str());
    match &d.blob_hash {
        Some(h) => {
            let e = SnapshotEntry { path: d.path.clone(), blob_hash: h.clone() };
            match found {
                Some(i) => {
                    proof {
                        lemma_to_map_update(entries@, i as int, e);
                    }
                    entries.remove(i);
                    entries.insert(i, e);
                    proof {
                        assert(entries@ =~= old(entries)@.update(i as int, e));
                    }
                },
                None => {
                    proof {
                        lemma_to_map_push(entries@, e);
                    }
                    entries.push(e);
                },
            }
        },
        None => {
            match found {
                Some(i) => {
                    proof {
                        lemma_to_map_remove(entries@, i as int);
                    }
                    entries.remove(i);
                },
                None => {
                    assert(to_map(entries@) =~= to_map(entries@).remove(d.path@));
                },
            }
        },
    }
}

/// Applies the deltas, in order, to the entries of a snapshot.
pub fn apply_deltas_to_entries(entries: &mut Vec<SnapshotEntry>, ds: &Vec<AssetDelta>)
    requires
        unique_keys(old(entries)@),
    ensures
        unique_keys(final(entries)@),
        to_map(final(entries)@) == apply_deltas(to_map(old(entries)@), deltas_view(ds@)),
{
    let ghost start = to_map(entries@);
    let mut i: usize = 0;
    while i < ds.len()
        invariant
            i <= ds@.len(),
            unique_keys(entries@),
            to_map(entries@) == apply_deltas(start, deltas_view(ds@.subrange(0, i as int))),
        decreases ds@.len() - i,
    {
        apply_delta_to_entries(entries, &ds[i]);
        proof {
            let a = deltas_view(ds@.subrange(0, i + 1));
            assert(a.drop_last() =~= deltas_view(ds@.subrange(0, i as int)));
            assert(a.last() == ds@[i as int]@);
        }
        i = i + 1;
    }
    proof {
        assert(ds@.subrange(0, ds@.len() as int) =~= ds@);
    }
}

} // verus!
