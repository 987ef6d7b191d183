//! Properties of the versioning service that span its operations.
use vstd::prelude::*;
use crate::keyed::{Keyed, unique_keys, to_map, has_key, lemma_index_of_key};
use crate::versioning::model::{
    AssetDelta, AssetDeltaView, ChangesetView, RepoView, SubmitView, VersionsView,
    VersioningErrorView, apply_delta, apply_deltas, deltas_view, diff_map, ensured_repo,
    ensure_default_branch, rollback_base, snapshot_or_empty, submit_changeset_spec, submit_spec,
    sync_target, history_page_spec, known_records, page_ids, clamp_limit, lineage, repo_lineage,
    create_branch_in_repo, create_branch_spec, default_head, fresh_repo, new_branch_view, BranchRecordView,
};

verus! {

/// Deltas that name each path at most once.
pub open spec fn distinct_paths(ds: Seq<AssetDeltaView>) -> bool {
    forall|i: int, j: int|
        0 <= i < ds.len() && 0 <= j < ds.len() && #[trigger] ds[i].path == #[trigger] ds[j].path
            ==> i == j
}

/// Deltas with distinct paths set each of their paths and leave the others alone.
pub proof fn lemma_apply_distinct(m: Map<Seq<char>, Seq<char>>, ds: Seq<AssetDeltaView>, k: Seq<char>)
    requires
        distinct_paths(ds),
    ensures
        forall|i: int|
            0 <= i < ds.len() && #[trigger] ds[i].path == k ==> apply_deltas(m, ds).get(k)
                == ds[i].blob_hash,
        (forall|i: int| 0 <= i < ds.len() ==> #[trigger] ds[i].path != k) ==> apply_deltas(
            m,
            ds,
        ).get(k) == m.get(k),
    decreases ds.len(),
{
    if ds.len() > 0 {
        let rest = ds.drop_last();
        assert(distinct_paths(rest)) by {
            assert forall|i: int, j: int|
                0 <= i < rest.len() && 0 <= j < rest.len() && #[trigger] rest[i].path
                    == #[trigger] rest[j].path implies i == j by {
                assert(ds[i].path == ds[j].path);
            }
        }
        lemma_apply_distinct(m, rest, k);
        let last = ds.last();
        let prev = apply_deltas(m, rest);
        assert(apply_deltas(m, ds) == apply_delta(prev, last));
        assert forall|i: int| 0 <= i < ds.len() && #[trigger] ds[i].path == k implies apply_deltas(
            m,
            ds,
        ).get(k) == ds[i].blob_hash by {
            if i < ds.len() - 1 {
                assert(rest[i].path == k);
                assert(ds[ds.len() - 1].path != k);
            }
        }
        if forall|i: int| 0 <= i < ds.len() ==> #[trigger] ds[i].path != k {
            assert(ds[ds.len() - 1].path != k);
            assert forall|i: int| 0 <= i < rest.len() implies #[trigger] rest[i].path != k by {
                assert(ds[i].path != k);
            }
        }
    }
}

/// Two maps that agree on every key are equal.
pub proof fn lemma_get_ext(a: Map<Seq<char>, Seq<char>>, b: Map<Seq<char>, Seq<char>>)
    requires
        forall|k: Seq<char>| #[trigger] a.get(k) == b.get(k),
    ensures
        a == b,
{
    assert forall|k: Seq<char>| a.contains_key(k) <==> b.contains_key(k) by {
        assert(a.get(k) == b.get(k));
    }
    assert forall|k: Seq<char>| #[trigger] a.contains_key(k) implies a[k] == b[k] by {
        assert(a.get(k) == b.get(k));
    }
    assert(a =~= b);
}

/// Applying the changes on which two snapshots differ, each with its content in
/// the second, turns the first snapshot into the second.
pub proof fn lemma_diff_restores(
    current: Map<Seq<char>, Seq<char>>,
    target: Map<Seq<char>, Seq<char>>,
    plan: Seq<AssetDelta>,
)
    requires
        unique_keys(plan),
        to_map(plan) == diff_map(current, target),
    ensures
        apply_deltas(current, deltas_view(plan)) == target,
{
    let ds = deltas_view(plan);
    assert(distinct_paths(ds)) by {
        assert forall|i: int, j: int|
            0 <= i < ds.len() && 0 <= j < ds.len() && #[trigger] ds[i].path == #[trigger] ds[j].path
            implies i == j by {
            assert(plan[i].key_of() == plan[j].key_of());
        }
    }
    let dm = diff_map(current, target);
    assert forall|k: Seq<char>| #[trigger] apply_deltas(current, ds).get(k) == target.get(k) by {
        lemma_apply_distinct(current, ds, k);
        if has_key(plan, k) {
            let i = choose|i: int| 0 <= i < plan.len() && #[trigger] plan[i].key_of() == k;
            lemma_index_of_key(plan, i);
            assert(ds[i].path == k);
            assert(dm.contains_key(k));
        } else {
            assert forall|i: int| 0 <= i < ds.len() implies #[trigger] ds[i].path != k by {
                if ds[i].path == k {
                    assert(plan[i].key_of() == k);
                }
            }
            assert(!dm.contains_key(k));
        }
    }
    lemma_get_ext(apply_deltas(current, ds), target);
}

/// A rollback, once submitted: when `base` is the base of a rollback of
/// `input.branch` to `target`, and `input` names that base and carries the
/// plan's changes, the submission is accepted, becomes the branch's head, and
/// the branch's snapshot is again the target's.
pub proof fn rollback_restores_target(
    repos: VersionsView,
    input: SubmitView,
    target: Seq<char>,
    base: Seq<char>,
    plan: Seq<AssetDelta>,
    id: Seq<char>,
    now: i64,
)
    requires
        repos.contains_key(input.repo_id),
        rollback_base(repos[input.repo_id], input.repo_id, input.branch, target) == Ok::<
            Seq<char>,
            VersioningErrorView,
        >(base),
        unique_keys(plan),
        to_map(plan) == diff_map(
            snapshot_or_empty(repos[input.repo_id], Some(base)),
            repos[input.repo_id].snapshots[target],
        ),
        input.base_changeset_id == Some(base),
        input.assets == deltas_view(plan),
    ensures
        submit_changeset_spec(repos, input, id, now).1 is Ok,
        submit_changeset_spec(repos, input, id, now).0[input.repo_id].branches[input.branch].record.head_changeset_id
            == Some(id),
        submit_changeset_spec(repos, input, id, now).0[input.repo_id].snapshots[id]
            == repos[input.repo_id].snapshots[target],
{
    let old_repo = repos[input.repo_id];
    let repo = ensured_repo(repos, input.repo_id, input.author, now);
    assert(repo.branches.contains_key(input.branch));
    assert(repo.branches[input.branch] == old_repo.branches[input.branch]);
    assert(repo.snapshots == old_repo.snapshots);
    lemma_diff_restores(
        snapshot_or_empty(old_repo, Some(base)),
        old_repo.snapshots[target],
        plan,
    );
}

/// What a read gives back of a write: after a submission is accepted as
/// changeset `id`, its branch's head is `id`, its history ends with `id`, a
/// sync of the branch reaches `id`, and the snapshot there is the parent's
/// snapshot with the submission's changes applied.
pub proof fn accepted_submission_is_head(
    repos: VersionsView,
    input: SubmitView,
    id: Seq<char>,
    now: i64,
)
    requires
        submit_changeset_spec(repos, input, id, now).1 is Ok,
    ensures
        ({
            let before = ensured_repo(repos, input.repo_id, input.author, now);
            let after = submit_changeset_spec(repos, input, id, now).0[input.repo_id];
            let record = submit_changeset_spec(repos, input, id, now).1->Ok_0;
            &&& record.changeset_id == id
            &&& record.parent_changeset_id == before.branches[input.branch].record.head_changeset_id
            &&& after.branches[input.branch].record.head_changeset_id == Some(id)
            &&& after.branches[input.branch].history == before.branches[input.branch].history.push(
                id,
            )
            &&& after.changesets[id] == record
            &&& sync_target(after, input.repo_id, input.branch, None) == Ok::<
                Option<Seq<char>>,
                VersioningErrorView,
            >(Some(id))
            &&& snapshot_or_empty(after, Some(id)) == apply_deltas(
                snapshot_or_empty(before, before.branches[input.branch].record.head_changeset_id),
                input.assets,
            )
        }),
{
}

/// The newest entry of a branch's history is the first record of its first page.
pub proof fn newest_first_in_history(
    repos: VersionsView,
    input: SubmitView,
    id: Seq<char>,
    now: i64,
    limit: usize,
)
    requires
        submit_changeset_spec(repos, input, id, now).1 is Ok,
    ensures
        ({
            let after = submit_changeset_spec(repos, input, id, now).0[input.repo_id];
            let page = history_page_spec(
                after.branches[input.branch].history,
                after.changesets,
                limit,
                0,
            );
            page.0.len() > 0 && page.0[0] == submit_changeset_spec(repos, input, id, now).1->Ok_0
        }),
{
    let after = submit_changeset_spec(repos, input, id, now).0[input.repo_id];
    let h = after.branches[input.branch].history;
    let ids = page_ids(h, limit, 0);
    assert(h.reverse()[0] == id);
    assert(ids.len() >= 1);
    assert(ids[0] == id);
    lemma_known_records_first(ids, after.changesets);
}

/// The ids of a list of changeset records.
pub open spec fn record_ids(rs: Seq<ChangesetView>) -> Seq<Seq<char>> {
    rs.map_values(|r: ChangesetView| r.changeset_id)
}

proof fn lemma_known_record_ids(ids: Seq<Seq<char>>, cs: Map<Seq<char>, ChangesetView>)
    requires
        forall|i: int| 0 <= i < ids.len() ==> cs.contains_key(#[trigger] ids[i]),
        forall|k: Seq<char>| #[trigger] cs.contains_key(k) ==> cs[k].changeset_id == k,
    ensures
        record_ids(known_records(ids, cs)) == ids,
    decreases ids.len(),
{
    if ids.len() > 0 {
        let init = ids.drop_last();
        assert forall|i: int| 0 <= i < init.len() implies cs.contains_key(#[trigger] init[i]) by {
            assert(init[i] == ids[i]);
        }
        lemma_known_record_ids(init, cs);
        assert(cs.contains_key(ids[ids.len() - 1]));
        let rest = known_records(init, cs);
        assert(record_ids(rest.push(cs[ids.last()])) =~= record_ids(rest).push(cs[ids.last()].changeset_id));
        assert(ids =~= init.push(ids.last()));
    }
}

/// A page of history, for a cursor within the history whose ids the
/// repository all knows: its records are those of the history read newest
/// first, from position `cursor`, as many as the limit allows (at least 1,
/// at most 200) or as remain; the next cursor is where the page ends, or
/// none when it reaches the oldest entry.
pub proof fn history_page_is_window(
    h: Seq<Seq<char>>,
    cs: Map<Seq<char>, ChangesetView>,
    limit: usize,
    cursor: usize,
)
    requires
        cursor <= h.len(),
        forall|i: int| 0 <= i < h.len() ==> cs.contains_key(#[trigger] h[i]),
        forall|k: Seq<char>| #[trigger] cs.contains_key(k) ==> cs[k].changeset_id == k,
    ensures
        ({
            let size: int = if limit < 1 {
                1
            } else if limit > 200 {
                200
            } else {
                limit as int
            };
            let hi: int = if cursor + size <= h.len() {
                cursor + size
            } else {
                h.len() as int
            };
            let page = history_page_spec(h, cs, limit, cursor);
            &&& record_ids(page.0) == h.reverse().subrange(cursor as int, hi)
            &&& page.1 == if hi < h.len() {
                Some(hi)
            } else {
                None::<int>
            }
        }),
{
    let ids = page_ids(h, limit, cursor);
    let rev = h.reverse();
    assert forall|i: int| 0 <= i < ids.len() implies cs.contains_key(#[trigger] ids[i]) by {
        assert(ids[i] == rev[cursor + i]);
        assert(rev[cursor + i] == h[h.len() - 1 - (cursor + i)]);
    }
    lemma_known_record_ids(ids, cs);
    assert(known_records(ids, cs).len() == record_ids(known_records(ids, cs)).len());
}

/// Paging without gaps: a page and the page at its next cursor together give
/// the history read newest first from the first page's cursor, with nothing
/// skipped or repeated.
pub proof fn consecutive_history_pages(
    h: Seq<Seq<char>>,
    cs: Map<Seq<char>, ChangesetView>,
    limit: usize,
    cursor: usize,
    next: usize,
)
    requires
        cursor <= h.len(),
        forall|i: int| 0 <= i < h.len() ==> cs.contains_key(#[trigger] h[i]),
        forall|k: Seq<char>| #[trigger] cs.contains_key(k) ==> cs[k].changeset_id == k,
        history_page_spec(h, cs, limit, cursor).1 == Some(next as int),
    ensures
        ({
            let size: int = if limit < 1 {
                1
            } else if limit > 200 {
                200
            } else {
                limit as int
            };
            let hi: int = if next + size <= h.len() {
                next + size
            } else {
                h.len() as int
            };
            &&& cursor < next <= h.len()
            &&& record_ids(history_page_spec(h, cs, limit, cursor).0) + record_ids(
                history_page_spec(h, cs, limit, next).0,
            ) == h.reverse().subrange(cursor as int, hi)
        }),
{
    history_page_is_window(h, cs, limit, cursor);
    history_page_is_window(h, cs, limit, next);
    let rev = h.reverse();
    assert(rev.subrange(cursor as int, next as int) + rev.subrange(next as int, if next + clamp_limit(limit) <= h.len() {
        next + clamp_limit(limit)
    } else {
        h.len() as int
    }) =~= rev.subrange(cursor as int, if next + clamp_limit(limit) <= h.len() {
        next + clamp_limit(limit)
    } else {
        h.len() as int
    }));
}

pub proof fn lemma_known_records_first(ids: Seq<Seq<char>>, cs: Map<Seq<char>, ChangesetView>)
    requires
        ids.len() > 0,
        cs.contains_key(ids[0]),
    ensures
        known_records(ids, cs).len() > 0,
        known_records(ids, cs)[0] == cs[ids[0]],
    decreases ids.len(),
{
    let rest = ids.drop_last();
    let kr = known_records(rest, cs);
    if ids.len() > 1 {
        assert(rest[0] == ids[0]);
        lemma_known_records_first(rest, cs);
    } else {
        assert(rest.len() == 0);
        assert(kr =~= Seq::<ChangesetView>::empty());
        assert(ids.last() == ids[0]);
    }
    assert(known_records(ids, cs) == (if cs.contains_key(ids.last()) {
        kr.push(cs[ids.last()])
    } else {
        kr
    }));
}

/// A submission against a stale base is refused, and the branch, the
/// changesets and the snapshots stay as they were.
pub proof fn stale_base_is_refused(repos: VersionsView, input: SubmitView, id: Seq<char>, now: i64)
    requires
        repos.contains_key(input.repo_id),
        repos[input.repo_id].branches.contains_key(input.branch),
        repos[input.repo_id].branches[input.branch].record.head_changeset_id is Some,
        input.base_changeset_id is Some,
        input.base_changeset_id != repos[input.repo_id].branches[input.branch].record.head_changeset_id,
    ensures
        submit_changeset_spec(repos, input, id, now).1 == Err::<ChangesetView, VersioningErrorView>(
            VersioningErrorView::BaseChangesetMismatch {
                repo_id: input.repo_id,
                branch: input.branch,
                expected: repos[input.repo_id].branches[input.branch].record.head_changeset_id,
                got: input.base_changeset_id,
            },
        ),
        submit_changeset_spec(repos, input, id, now).0[input.repo_id].branches[input.branch]
            == repos[input.repo_id].branches[input.branch],
        submit_changeset_spec(repos, input, id, now).0[input.repo_id].changesets
            == repos[input.repo_id].changesets,
        submit_changeset_spec(repos, input, id, now).0[input.repo_id].snapshots
            == repos[input.repo_id].snapshots,
{
}

/// Once a submission is accepted, a second one against the same base is
/// refused (unless the new changeset's id is that very base).
pub proof fn same_base_twice_is_refused(
    repos: VersionsView,
    first: SubmitView,
    second: SubmitView,
    id1: Seq<char>,
    id2: Seq<char>,
    now1: i64,
    now2: i64,
)
    requires
        submit_changeset_spec(repos, first, id1, now1).1 is Ok,
        second.repo_id == first.repo_id,
        second.branch == first.branch,
        second.base_changeset_id == first.base_changeset_id,
        first.base_changeset_id != Some(id1),
    ensures
        submit_changeset_spec(submit_changeset_spec(repos, first, id1, now1).0, second, id2, now2).1
            is Err,
{
    let repos1 = submit_changeset_spec(repos, first, id1, now1).0;
    assert(repos1.contains_key(first.repo_id));
    let r = repos1[first.repo_id];
    assert(r.branches.contains_key(first.branch));
    assert(r.branches[first.branch].record.head_changeset_id == Some(id1));
    let e = ensured_repo(repos1, second.repo_id, second.author, now2);
    assert(e.branches[first.branch] == r.branches[first.branch]);
}

/// Every changeset of the repository has a chain of parents back to a root,
/// and every branch head is one of its changesets.
pub open spec fn lineage_closed(repo: RepoView) -> bool {
    &&& repo.changesets.dom().finite()
    &&& forall|id: Seq<char>| #[trigger] repo.changesets.contains_key(id) ==> repo_lineage(repo, id) is Some
    &&& forall|b: Seq<char>|
        #[trigger] repo.branches.contains_key(b) ==> match repo.branches[b].record.head_changeset_id {
            Some(h) => repo.changesets.contains_key(h),
            None => true,
        }
}

/// Every repository of the store is lineage-closed.
pub open spec fn store_lineage_closed(repos: VersionsView) -> bool {
    forall|r: Seq<char>| #[trigger] repos.contains_key(r) ==> lineage_closed(repos[r])
}

proof fn lemma_lineage_more_fuel(cs: Map<Seq<char>, ChangesetView>, id: Seq<char>, f: nat, g: nat)
    requires
        f <= g,
        lineage(cs, id, f) is Some,
    ensures
        lineage(cs, id, g) == lineage(cs, id, f),
    decreases f,
{
    match cs[id].parent_changeset_id {
        None => {},
        Some(p) => {
            lemma_lineage_more_fuel(cs, p, (f - 1) as nat, (g - 1) as nat);
        },
    }
}

proof fn lemma_lineage_fresh_insert(
    cs: Map<Seq<char>, ChangesetView>,
    id: Seq<char>,
    f: nat,
    k: Seq<char>,
    v: ChangesetView,
)
    requires
        lineage(cs, id, f) is Some,
        !cs.contains_key(k),
    ensures
        lineage(cs.insert(k, v), id, f) == lineage(cs, id, f),
    decreases f,
{
    assert(cs.insert(k, v)[id] == cs[id]);
    match cs[id].parent_changeset_id {
        None => {},
        Some(p) => {
            lemma_lineage_fresh_insert(cs, p, (f - 1) as nat, k, v);
        },
    }
}

/// A repository as it is created is lineage-closed.
pub proof fn fresh_repo_is_lineage_closed(created_by: Seq<char>, now: i64)
    ensures
        lineage_closed(fresh_repo(created_by, now)),
{
    assert(fresh_repo(created_by, now).changesets.dom() =~= Set::<Seq<char>>::empty());
}

/// Giving a lineage-closed repository its default branch keeps it so.
pub proof fn default_branch_keeps_lineage(repo: RepoView, created_by: Seq<char>, now: i64)
    requires
        lineage_closed(repo),
    ensures
        lineage_closed(ensure_default_branch(repo, created_by, now)),
{
}

/// The repository that a write works on is lineage-closed when the store is.
proof fn lemma_ensured_repo_closed(repos: VersionsView, repo_id: Seq<char>, created_by: Seq<char>, now: i64)
    requires
        store_lineage_closed(repos),
    ensures
        lineage_closed(ensured_repo(repos, repo_id, created_by, now)),
{
    if repos.contains_key(repo_id) {
        default_branch_keeps_lineage(repos[repo_id], created_by, now);
    } else {
        fresh_repo_is_lineage_closed(created_by, now);
    }
}

/// Branch creation: a branch that exists is refused; so is a start at a
/// changeset the repository does not hold; otherwise the branch is made, not
/// default, by its creator, at the changeset named or at the default
/// branch's head, with the chain of parents that leads there, root first,
/// as its history. The changesets stay as they were and the repository stays
/// lineage-closed.
pub proof fn branch_creation_outcome(
    repo: RepoView,
    repo_id: Seq<char>,
    branch: Seq<char>,
    from: Option<Seq<char>>,
    created_by: Seq<char>,
    now: i64,
)
    requires
        lineage_closed(repo),
    ensures
        ({
            let (r2, res) = create_branch_in_repo(repo, repo_id, branch, from, created_by, now);
            let head = if from is Some {
                from
            } else {
                default_head(repo)
            };
            if repo.branches.contains_key(branch) {
                r2 == repo && res == Err::<BranchRecordView, VersioningErrorView>(
                    VersioningErrorView::BranchAlreadyExists { repo_id, branch },
                )
            } else if from is Some && !repo.changesets.contains_key(from->0) {
                r2 == repo && res == Err::<BranchRecordView, VersioningErrorView>(
                    VersioningErrorView::ChangesetNotFound { repo_id, changeset_id: from->0 },
                )
            } else {
                &&& res == Ok::<BranchRecordView, VersioningErrorView>(
                    BranchRecordView {
                        name: branch,
                        created_by,
                        created_at: now,
                        is_default: false,
                        head_changeset_id: head,
                    },
                )
                &&& r2.branches.contains_key(branch)
                &&& r2.branches[branch].history == match head {
                    Some(h) => repo_lineage(repo, h)->0,
                    None => Seq::empty(),
                }
                &&& r2.changesets == repo.changesets
                &&& lineage_closed(r2)
            }
        }),
{
    let head = if from is Some {
        from
    } else {
        default_head(repo)
    };
    if !repo.branches.contains_key(branch) && !(from is Some && !repo.changesets.contains_key(from->0)) {
        if head is Some {
            if from is None {
                assert(repo.branches.contains_key(repo.default_branch));
            }
            assert(repo.changesets.contains_key(head->0));
        }
    }
}

/// Branch creation in a lineage-closed store, as the manager does it: the
/// repository is made first if it is missing (with its default branch); then
/// the outcome is that of `branch_creation_outcome` on that repository, and the
/// store stays lineage-closed.
pub proof fn branch_creation_in_store(
    repos: VersionsView,
    repo_id: Seq<char>,
    branch: Seq<char>,
    from: Option<Seq<char>>,
    created_by: Seq<char>,
    now: i64,
)
    requires
        store_lineage_closed(repos),
    ensures
        ({
            let (repos2, res) = create_branch_spec(repos, repo_id, branch, from, created_by, now);
            let repo = ensured_repo(repos, repo_id, created_by, now);
            let head = if from is Some {
                from
            } else {
                default_head(repo)
            };
            &&& repo.branches.contains_key(repo.default_branch)
            &&& store_lineage_closed(repos2)
            &&& if repo.branches.contains_key(branch) {
                repos2 == repos.insert(repo_id, repo) && res == Err::<BranchRecordView, VersioningErrorView>(
                    VersioningErrorView::BranchAlreadyExists { repo_id, branch },
                )
            } else if from is Some && !repo.changesets.contains_key(from->0) {
                repos2 == repos.insert(repo_id, repo) && res == Err::<BranchRecordView, VersioningErrorView>(
                    VersioningErrorView::ChangesetNotFound { repo_id, changeset_id: from->0 },
                )
            } else {
                &&& res == Ok::<BranchRecordView, VersioningErrorView>(
                    BranchRecordView {
                        name: branch,
                        created_by,
                        created_at: now,
                        is_default: false,
                        head_changeset_id: head,
                    },
                )
                &&& repos2.contains_key(repo_id)
                &&& repos2[repo_id].branches.contains_key(branch)
                &&& repos2[repo_id].branches[branch].history == match head {
                    Some(h) => repo_lineage(repo, h)->0,
                    None => Seq::empty(),
                }
                &&& head is Some ==> repo_lineage(repo, head->0) is Some
                &&& repos2[repo_id].changesets == repo.changesets
            }
        }),
{
    let repo = ensured_repo(repos, repo_id, created_by, now);
    lemma_ensured_repo_closed(repos, repo_id, created_by, now);
    branch_creation_outcome(repo, repo_id, branch, from, created_by, now);
    let head = if from is Some {
        from
    } else {
        default_head(repo)
    };
    if head is Some && !repo.branches.contains_key(branch) && !(from is Some && !repo.changesets.contains_key(from->0)) {
        if from is None {
            assert(repo.branches.contains_key(repo.default_branch));
        }
        assert(repo.changesets.contains_key(head->0));
    }
}

/// An accepted submission keeps the repository lineage-closed when its id is
/// new: the new changeset's chain is its parent's followed by itself.
pub proof fn submission_keeps_lineage(repo: RepoView, input: SubmitView, id: Seq<char>, now: i64)
    requires
        lineage_closed(repo),
        !repo.changesets.contains_key(id),
    ensures
        lineage_closed(submit_spec(repo, input, id, now).0),
        submit_spec(repo, input, id, now).1 is Ok ==> repo_lineage(submit_spec(repo, input, id, now).0, id)
            == Some(
            match repo.branches[input.branch].record.head_changeset_id {
                Some(p) => repo_lineage(repo, p)->0.push(id),
                None => seq![id],
            },
        ),
{
    let (r2, res) = submit_spec(repo, input, id, now);
    if res is Ok {
        let cs = repo.changesets;
        let v = r2.changesets[id];
        let n = cs.dom().len();
        assert(r2.changesets == cs.insert(id, v));
        assert(r2.changesets.dom() =~= cs.dom().insert(id));
        assert(r2.changesets.dom().len() == n + 1);
        assert forall|c: Seq<char>| #[trigger] r2.changesets.contains_key(c) implies repo_lineage(r2, c) is Some by {
            if c != id {
                lemma_lineage_fresh_insert(cs, c, n, id, v);
                lemma_lineage_more_fuel(cs.insert(id, v), c, n, n + 1);
            } else {
                match v.parent_changeset_id {
                    None => {},
                    Some(p) => {
                        lemma_lineage_fresh_insert(cs, p, n, id, v);
                    },
                }
            }
        }
        match v.parent_changeset_id {
            None => {},
            Some(p) => {
                lemma_lineage_fresh_insert(cs, p, n, id, v);
            },
        }
    }
}

/// The store as made is lineage-closed; branch creation keeps it so, and so
/// does every accepted submission whose id is new to its repository.
pub proof fn store_stays_lineage_closed(
    repos: VersionsView,
    input: SubmitView,
    id: Seq<char>,
    repo_id: Seq<char>,
    branch: Seq<char>,
    from: Option<Seq<char>>,
    created_by: Seq<char>,
    now: i64,
)
    requires
        store_lineage_closed(repos),
    ensures
        store_lineage_closed(Map::<Seq<char>, RepoView>::empty()),
        store_lineage_closed(create_branch_spec(repos, repo_id, branch, from, created_by, now).0),
        !ensured_repo(repos, input.repo_id, input.author, now).changesets.contains_key(id) ==> store_lineage_closed(
            submit_changeset_spec(repos, input, id, now).0,
        ),
{
    let repo = ensured_repo(repos, repo_id, created_by, now);
    lemma_ensured_repo_closed(repos, repo_id, created_by, now);
    branch_creation_outcome(repo, repo_id, branch, from, created_by, now);
    let repo2 = ensured_repo(repos, input.repo_id, input.author, now);
    lemma_ensured_repo_closed(repos, input.repo_id, input.author, now);
    if !repo2.changesets.contains_key(id) {
        submission_keeps_lineage(repo2, input, id, now);
    }
}

} // verus!
