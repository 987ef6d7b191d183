//! The versioning service: every repository, by id.
use vstd::prelude::*;
use crate::keyed::{
    Keyed, unique_keys, to_map, find_key, lemma_index_of_key, lemma_to_map_empty,
    lemma_to_map_push, replace_at,
};
use crate::order::sorted_by_key;
use crate::keyed::upsert;
use crate::versioning::persist::{RepoRows, StoredRepo, rows_of, stored_repo_view};
use crate::clock::{now_millis, new_uuid_string};
use crate::versioning::model::{
    BranchRecord, ChangesetRecord, HistoryPage, RollbackPlan, SubmitChangesetInput, SyncSnapshot,
    VersioningError, VersioningErrorView, VersionsView, ChangesetView, BranchRecordView,
    ensured_repo, create_branch_spec, submit_changeset_spec, result_view, opt_str, opt_str_ref,
    records_view, opt_usize, history_page_spec, sync_target, snapshot_or_empty, rollback_base,
    diff_map, branch_records,
};
use crate::versioning::repo::RepoState;

verus! {

/// The repositories that the service keeps.
pub struct VersionManager {
    repos: Vec<RepoState>,
}

impl View for VersionManager {
    type V = VersionsView;

    closed spec fn view(&self) -> VersionsView {
        to_map(self.repos@)
    }
}

/// The result of a history query: the page's records and its next cursor.
pub open spec fn history_spec(
    repos: VersionsView,
    repo_id: Seq<char>,
    branch: Seq<char>,
    limit: usize,
    cursor: usize,
) -> Result<(Seq<ChangesetView>, Option<int>), VersioningErrorView> {
    if !repos.contains_key(repo_id) {
        Err(VersioningErrorView::RepoNotFound { repo_id })
    } else if !repos[repo_id].branches.contains_key(branch) {
        Err(VersioningErrorView::BranchNotFound { repo_id, branch })
    } else {
        Ok(
            history_page_spec(
                repos[repo_id].branches[branch].history,
                repos[repo_id].changesets,
                limit,
                cursor,
            ),
        )
    }
}

/// The repositories that the stored rows describe, rebuilt at `now`, each
/// under its id (a later repository of the same id wins).
pub open spec fn stored_repos_view(repos: Seq<StoredRepo>, now: i64) -> VersionsView
    decreases repos.len(),
{
    if repos.len() == 0 {
        Map::empty()
    } else {
        stored_repos_view(repos.drop_last(), now).insert(repos.last().repo_id@, stored_repo_view(repos.last(), now))
    }
}

impl VersionManager {
    /// The repositories that the stored rows describe, rebuilt at `now`.
    pub fn from_stored(repos: Vec<StoredRepo>, now: i64) -> (r: VersionManager)
        ensures
            r.wf(),
            r@ == stored_repos_view(repos@, now),
    {
        let mut r = VersionManager::new();
        let ghost all = repos@;
        let total = repos.len();
        assert(all.len() == total);
        let mut rest = repos;
        let mut k: usize = 0;
        while rest.len() > 0
            invariant
                r.wf(),
                k <= all.len(),
                all.len() <= usize::MAX,
                rest@ == all.skip(k as int),
                r@ == stored_repos_view(all.take(k as int), now),
            decreases rest@.len(),
        {
            let s = rest.remove(0);
            proof {
                assert(s == all[k as int]);
                assert(all.take(k + 1).drop_last() =~= all.take(k as int));
                assert(all.take(k + 1).last() == all[k as int]);
                assert(rest@ =~= all.skip(k + 1));
            }
            let repo = RepoState::from_stored(s, now);
            let ghost before = r.repos@;
            upsert(&mut r.repos, repo);
            proof {
                assert forall|i: int| 0 <= i < r.repos@.len() implies (#[trigger] r.repos@[i]).wf() by {
                    if r.repos@[i] != repo {
                        let m = choose|m: int| 0 <= m < before.len() && before[m] == r.repos@[i];
                        assert(before[m].wf());
                    }
                }
            }
            k = k + 1;
        }
        proof {
            assert(all.take(k as int) =~= all);
        }
        r
    }

    /// The rows that the database keeps of repository `repo_id`, if it exists.
    pub fn repo_rows(&self, repo_id: &str) -> (r: Option<RepoRows>)
        requires
            self.wf(),
        ensures
            r is Some <==> self@.contains_key(repo_id@),
            match r {
                Some(rows) => rows.repo_id@ == repo_id@ && rows_of(self@[repo_id@], rows),
                None => true,
            },
    {
        match find_key(&self.repos, repo_id) {
            Some(i) => {
                proof {
                    lemma_index_of_key(self.repos@, i as int);
                }
                Some(self.repos[i].rows())
            },
            None => None,
        }
    }
}

impl VersionManager {
    /// Each repository is well formed and has its own id.
    pub closed spec fn wf(&self) -> bool {
        &&& unique_keys(self.repos@)
        &&& forall|i: int| 0 <= i < self.repos@.len() ==> (#[trigger] self.repos@[i]).wf()
    }

    pub fn new() -> (r: VersionManager)
        ensures
            r.wf(),
            r@ == Map::<Seq<char>, crate::versioning::model::RepoView>::empty(),
    {
        let r = VersionManager { repos: Vec::new() };
        proof {
            lemma_to_map_empty(r.repos@);
        }
        r
    }

    /// The position of repository `repo_id`, which exists afterwards, with its
    /// default branch.
    fn ensure_repo(&mut self, repo_id: &str, created_by: &str, now: i64) -> (i: usize)
        requires
            old(self).wf(),
        ensures
            final(self).wf(),
            i < final(self).repos@.len(),
            final(self).repos@[i as int].key_of() == repo_id@,
            final(self)@ == old(self)@.insert(
                repo_id@,
                ensured_repo(old(self)@, repo_id@, created_by@, now),
            ),
            final(self).repos@.len() >= old(self).repos@.len(),
            forall|j: int|
                0 <= j < final(self).repos@.len() && j != i ==> #[trigger] final(self).repos@[j]
                    == old(self).repos@[j],
    {
        match find_key(&self.repos, repo_id) {
            Some(i) => {
                proof {
                    lemma_index_of_key(self.repos@, i as int);
                }
                let mut repo = self.repos.remove(i);
                proof {
                    assert(repo == old(self).repos@[i as int]);
                    assert(repo.wf());
                }
                repo.ensure_default_branch(created_by, now);
                self.repos.insert(i, repo);
                proof {
                    assert(self.repos@ =~= old(self).repos@.update(i as int, repo));
                    crate::keyed::lemma_to_map_update(old(self).repos@, i as int, repo);
                }
                i
            },
            None => {
                let repo = RepoState::new(repo_id, created_by, now);
                proof {
                    lemma_to_map_push(self.repos@, repo);
                }
                self.repos.push(repo);
                self.repos.len() - 1
            },
        }
    }

    /// Creates a branch at time `now`.
    pub fn create_branch_at(
        &mut self,
        repo_id: &str,
        branch: &str,
        from_changeset_id: Option<&str>,
        created_by: &str,
        now: i64,
    ) -> (r: Result<BranchRecord, VersioningError>)
        requires
            old(self).wf(),
        ensures
            final(self).wf(),
            (final(self)@, result_view(r)) == create_branch_spec(
                old(self)@,
                repo_id@,
                branch@,
                opt_str_ref(from_changeset_id),
                created_by@,
                now,
            ),
    {
        let i = self.ensure_repo(repo_id, created_by, now);
        let ghost mid = self.repos@;
        proof {
            lemma_index_of_key(self.repos@, i as int);
        }
        let mut repo = self.repos.remove(i);
        proof {
            assert(repo == mid[i as int]);
        }
        let r = repo.add_branch(branch, from_changeset_id, created_by, now);
        self.repos.insert(i, repo);
        proof {
            assert(self.repos@ =~= mid.update(i as int, repo));
            crate::keyed::lemma_to_map_update(mid, i as int, repo);
            assert forall|j: int| 0 <= j < self.repos@.len() implies (#[trigger] self.repos@[j]).wf() by {
                if j != i {
                    assert(self.repos@[j] == mid[j]);
                }
            }
        }
        r
    }

    /// Creates branch `branch` of repository `repo_id` (creating the repository
    /// if it is new), headed at `from_changeset_id` or at the default branch's
    /// head, with the history that leads there.
    pub fn create_branch(
        &mut self,
        repo_id: &str,
        branch: &str,
        from_changeset_id: Option<&str>,
        created_by: &str,
    ) -> (r: Result<BranchRecord, VersioningError>)
        requires
            old(self).wf(),
        ensures
            final(self).wf(),
            exists|now: i64|
                (final(self)@, result_view(r)) == create_branch_spec(
                    old(self)@,
                    repo_id@,
                    branch@,
                    opt_str_ref(from_changeset_id),
                    created_by@,
                    now,
                ),
    {
        let now = now_millis();
        self.create_branch_at(repo_id, branch, from_changeset_id, created_by, now)
    }

    /// Submits `input` as changeset `changeset_id`, made at time `now`.
    pub fn submit_changeset_at(
        &mut self,
        input: SubmitChangesetInput,
        changeset_id: String,
        now: i64,
    ) -> (r: Result<ChangesetRecord, VersioningError>)
        requires
            old(self).wf(),
        ensures
            final(self).wf(),
            (final(self)@, result_view(r)) == submit_changeset_spec(
                old(self)@,
                input@,
                changeset_id@,
                now,
            ),
    {
        let i = self.ensure_repo(input.repo_id.as_str(), input.author.as_str(), now);
        let ghost mid = self.repos@;
        proof {
            lemma_index_of_key(self.repos@, i as int);
        }
        let mut repo = self.repos.remove(i);
        proof {
            assert(repo == mid[i as int]);
        }
        let r = repo.submit_internal(input, changeset_id, now);
        self.repos.insert(i, repo);
        proof {
            assert(self.repos@ =~= mid.update(i as int, repo));
            crate::keyed::lemma_to_map_update(mid, i as int, repo);
            assert forall|j: int| 0 <= j < self.repos@.len() implies (#[trigger] self.repos@[j]).wf() by {
                if j != i {
                    assert(self.repos@[j] == mid[j]);
                }
            }
        }
        r
    }

    /// Submits `input`: it becomes the new head of its branch if it names the
    /// branch's head (or `ROOT` while there is none) as its base. The repository
    /// is created, or given its default branch, in any case.
    pub fn submit_changeset(&mut self, input: SubmitChangesetInput) -> (r: Result<
        ChangesetRecord,
        VersioningError,
    >)
        requires
            old(self).wf(),
        ensures
            final(self).wf(),
            exists|id: Seq<char>, now: i64|
                (final(self)@, result_view(r)) == submit_changeset_spec(old(self)@, input@, id, now),
    {
        let id = new_uuid_string();
        let now = now_millis();
        self.submit_changeset_at(input, id, now)
    }

    fn repo_index(&self, repo_id: &str) -> (r: Result<usize, VersioningError>)
        requires
            self.wf(),
        ensures
            match r {
                Ok(i) => i < self.repos@.len() && self.repos@[i as int].key_of() == repo_id@
                    && self@.contains_key(repo_id@) && self@[repo_id@] == self.repos@[i as int].model(),
                Err(e) => !self@.contains_key(repo_id@) && e@ == VersioningErrorView::RepoNotFound {
                    repo_id: repo_id@,
                },
            },
    {
        match find_key(&self.repos, repo_id) {
            Some(i) => {
                proof {
                    lemma_index_of_key(self.repos@, i as int);
                }
                Ok(i)
            },
            None => Err(VersioningError::RepoNotFound { repo_id: repo_id.to_owned() }),
        }
    }

    /// The branches of a repository, sorted by name.
    pub fn list_branches(&self, repo_id: &str) -> (r: Result<Vec<BranchRecord>, VersioningError>)
        requires
            self.wf(),
        ensures
            match r {
                Ok(items) => {
                    &&& self@.contains_key(repo_id@)
                    &&& unique_keys(items@)
                    &&& sorted_by_key(items@)
                    &&& to_map(items@) == branch_records(self@[repo_id@])
                },
                Err(e) => !self@.contains_key(repo_id@) && e@ == VersioningErrorView::RepoNotFound {
                    repo_id: repo_id@,
                },
            },
    {
        let i = self.repo_index(repo_id)?;
        Ok(self.repos[i].branch_list())
    }

    /// One page of the history of a branch, newest first: at most `limit`
    /// records (the limit taken between 1 and 200), from position `cursor`.
    pub fn history(&self, repo_id: &str, branch: &str, limit: usize, cursor: usize) -> (r: Result<
        HistoryPage,
        VersioningError,
    >)
        requires
            self.wf(),
        ensures
            match r {
                Ok(p) => history_spec(self@, repo_id@, branch@, limit, cursor) == Ok::<
                    (Seq<ChangesetView>, Option<int>),
                    VersioningErrorView,
                >((records_view(p.items@), opt_usize(p.next_cursor))),
                Err(e) => history_spec(self@, repo_id@, branch@, limit, cursor) == Err::<
                    (Seq<ChangesetView>, Option<int>),
                    VersioningErrorView,
                >(e@),
            },
    {
        let i = self.repo_index(repo_id)?;
        self.repos[i].history_page(branch, limit, cursor)
    }

    /// The changes that bring a branch back to an earlier changeset of its history.
    pub fn build_rollback_plan(&self, repo_id: &str, branch: &str, target_changeset_id: &str) -> (r:
        Result<RollbackPlan, VersioningError>)
        requires
            self.wf(),
        ensures
            match r {
                Ok(p) => {
                    let m = self@[repo_id@];
                    &&& self@.contains_key(repo_id@)
                    &&& rollback_base(m, repo_id@, branch@, target_changeset_id@) == Ok::<
                        Seq<char>,
                        VersioningErrorView,
                    >(p.base_changeset_id@)
                    &&& p.repo_id@ == repo_id@
                    &&& p.branch@ == branch@
                    &&& p.target_changeset_id@ == target_changeset_id@
                    &&& unique_keys(p.assets@)
                    &&& sorted_by_key(p.assets@)
                    &&& to_map(p.assets@) == diff_map(
                        snapshot_or_empty(m, Some(p.base_changeset_id@)),
                        m.snapshots[target_changeset_id@],
                    )
                },
                Err(e) => if self@.contains_key(repo_id@) {
                    rollback_base(self@[repo_id@], repo_id@, branch@, target_changeset_id@)
                        == Err::<Seq<char>, VersioningErrorView>(e@)
                } else {
                    e@ == VersioningErrorView::RepoNotFound { repo_id: repo_id@ }
                },
            },
    {
        let i = self.repo_index(repo_id)?;
        self.repos[i].rollback_plan(branch, target_changeset_id)
    }

    /// The assets of a branch at `to_changeset_id`, or at its head, sorted by path.
    pub fn sync_snapshot(&self, repo_id: &str, branch: &str, to_changeset_id: Option<&str>) -> (r:
        Result<SyncSnapshot, VersioningError>)
        requires
            self.wf(),
        ensures
            match r {
                Ok(s) => {
                    let m = self@[repo_id@];
                    &&& self@.contains_key(repo_id@)
                    &&& sync_target(m, repo_id@, branch@, opt_str_ref(to_changeset_id)) == Ok::<
                        Option<Seq<char>>,
                        VersioningErrorView,
                    >(opt_str(s.changeset_id))
                    &&& s.repo_id@ == repo_id@
                    &&& s.branch@ == branch@
                    &&& unique_keys(s.assets@)
                    &&& sorted_by_key(s.assets@)
                    &&& to_map(s.assets@) == snapshot_or_empty(m, opt_str(s.changeset_id))
                },
                Err(e) => if self@.contains_key(repo_id@) {
                    sync_target(self@[repo_id@], repo_id@, branch@, opt_str_ref(to_changeset_id))
                        == Err::<Option<Seq<char>>, VersioningErrorView>(e@)
                } else {
                    e@ == VersioningErrorView::RepoNotFound { repo_id: repo_id@ }
                },
            },
    {
        let i = self.repo_index(repo_id)?;
        self.repos[i].sync(branch, to_changeset_id)
    }
}

} // verus!
