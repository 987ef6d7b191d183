//! Repositories as the database keeps them: rows of branches, changesets,
//! asset changes and snapshot entries, and the repository they rebuild.
use vstd::prelude::*;
use crate::keyed::{
    Keyed, has_key, index_of_key, unique_keys, to_map, find_key, lemma_index_of_key, lemma_to_map_empty, lemma_to_map_push, upsert,
    replace_at,
};
use crate::versioning::model::{
    AssetDelta, BranchRecord, BranchView, ChangesetRecord, ChangesetView, RepoView, SnapshotEntry,
    strings_view, deltas_view, ensure_default_branch, lineage, DEFAULT_BRANCH_NAME,
};
use crate::versioning::repo::{BranchState, RepoState, SnapshotRecord, clone_entries};

verus! {

/// A stored change to an asset, with the changeset it belongs to.
#[derive(Debug)]
pub struct DeltaRow {
    pub changeset_id: String,
    pub delta: AssetDelta,
}

/// A stored entry of the snapshot at a changeset.
#[derive(Debug)]
pub struct SnapshotRow {
    pub changeset_id: String,
    pub entry: SnapshotEntry,
}

/// A repository as loaded from the database: who created it, its branch
/// rows, its changeset rows (their changes come as rows of their own), the
/// rows of asset changes and of snapshot entries, each in stored order.
#[derive(Debug)]
pub struct StoredRepo {
    pub repo_id: String,
    pub created_by: String,
    pub branches: Vec<BranchRecord>,
    pub changesets: Vec<ChangesetRecord>,
    pub deltas: Vec<DeltaRow>,
    pub snapshot_rows: Vec<SnapshotRow>,
}

/// The changesets of the rows, each under its id (a later row wins).
pub open spec fn changeset_table(cs: Seq<ChangesetRecord>) -> Map<Seq<char>, ChangesetView>
    decreases cs.len(),
{
    if cs.len() == 0 {
        Map::empty()
    } else {
        changeset_table(cs.drop_last()).insert(cs.last().changeset_id@, cs.last()@)
    }
}

/// The changesets `m` with the stored changes `ds` appended, in order, to the
/// changesets they name; a change of an unknown changeset is dropped.
pub open spec fn with_deltas(m: Map<Seq<char>, ChangesetView>, ds: Seq<DeltaRow>) -> Map<Seq<char>, ChangesetView>
    decreases ds.len(),
{
    if ds.len() == 0 {
        m
    } else {
        let before = with_deltas(m, ds.drop_last());
        let d = ds.last();
        if before.contains_key(d.changeset_id@) {
            before.insert(
                d.changeset_id@,
                ChangesetView { assets: before[d.changeset_id@].assets.push(d.delta@), ..before[d.changeset_id@] },
            )
        } else {
            before
        }
    }
}

/// The snapshots of the rows: each changeset's entries by path (a later row
/// wins).
pub open spec fn snapshot_table(rows: Seq<SnapshotRow>) -> Map<Seq<char>, Map<Seq<char>, Seq<char>>>
    decreases rows.len(),
{
    if rows.len() == 0 {
        Map::empty()
    } else {
        let before = snapshot_table(rows.drop_last());
        let r = rows.last();
        let old_entries = if before.contains_key(r.changeset_id@) {
            before[r.changeset_id@]
        } else {
            Map::empty()
        };
        before.insert(r.changeset_id@, old_entries.insert(r.entry.path@, r.entry.blob_hash@))
    }
}

/// The default branch of the rows: the last one marked default, else `main`.
pub open spec fn stored_default(bs: Seq<BranchRecord>) -> Seq<char>
    decreases bs.len(),
{
    if bs.len() == 0 {
        DEFAULT_BRANCH_NAME@
    } else if bs.last().is_default {
        bs.last().name@
    } else {
        stored_default(bs.drop_last())
    }
}

/// The changesets that led to `head`, oldest first, or none when it names no
/// changeset or its chain is broken.
pub open spec fn history_to(cs: Map<Seq<char>, ChangesetView>, head: Option<Seq<char>>) -> Seq<Seq<char>> {
    match head {
        Some(h) => match lineage(cs, h, cs.dom().len()) {
            Some(l) => l,
            None => Seq::empty(),
        },
        None => Seq::empty(),
    }
}

/// The branches of the rows, each with the history that leads to its head
/// among the changesets `cs` (a later row wins).
pub open spec fn branch_table(bs: Seq<BranchRecord>, cs: Map<Seq<char>, ChangesetView>) -> Map<Seq<char>, BranchView>
    decreases bs.len(),
{
    if bs.len() == 0 {
        Map::empty()
    } else {
        let b = bs.last();
        branch_table(bs.drop_last(), cs).insert(
            b.name@,
            BranchView { record: b@, history: history_to(cs, b.record_head()) },
        )
    }
}

impl BranchRecord {
    pub open spec fn record_head(&self) -> Option<Seq<char>> {
        self@.head_changeset_id
    }
}

/// The repository that the stored rows describe, rebuilt at `now`: a
/// repository without branch rows gets its default branch, created by the
/// repository's creator at `now`.
pub open spec fn stored_repo_view(s: StoredRepo, now: i64) -> RepoView {
    let cs = with_deltas(changeset_table(s.changesets@), s.deltas@);
    let base = RepoView {
        default_branch: stored_default(s.branches@),
        branches: branch_table(s.branches@, cs),
        changesets: cs,
        snapshots: snapshot_table(s.snapshot_rows@),
    };
    if s.branches@.len() == 0 {
        ensure_default_branch(base, s.created_by@, now)
    } else {
        base
    }
}

impl RepoState {
    /// The repository that the stored rows describe, rebuilt at `now`.
    pub fn from_stored(s: StoredRepo, now: i64) -> (r: RepoState)
        ensures
            r.wf(),
            r.key_of() == s.repo_id@,
            r.model() == stored_repo_view(s, now),
    {
        let mut r = RepoState {
            repo_id: s.repo_id.clone(),
            default_branch: DEFAULT_BRANCH_NAME.to_owned(),
            branches: Vec::new(),
            changesets: Vec::new(),
            snapshots: Vec::new(),
        };
        proof {
            lemma_to_map_empty(r.branches@);
            lemma_to_map_empty(r.changesets@);
            lemma_to_map_empty(r.snapshots@);
        }
        // The changesets, each under its id.
        let mut i: usize = 0;
        while i < s.changesets.len()
            invariant
                i <= s.changesets@.len(),
                r.wf(),
                r.repo_id@ == s.repo_id@,
                r.branches@.len() == 0,
                to_map(r.snapshots@) == Map::<Seq<char>, Map<Seq<char>, Seq<char>>>::empty(),
                r.snapshots@.len() == 0,
                to_map(r.changesets@) == changeset_table(s.changesets@.take(i as int)),
            decreases s.changesets@.len() - i,
        {
            let c = s.changesets[i].clone();
            proof {
                assert(s.changesets@.take(i + 1).drop_last() =~= s.changesets@.take(i as int));
                assert(s.changesets@.take(i + 1).last() == s.changesets@[i as int]);
            }
            upsert(&mut r.changesets, c);
            i = i + 1;
        }
        proof {
            assert(s.changesets@.take(s.changesets@.len() as int) =~= s.changesets@);
        }
        let ghost cs0 = to_map(r.changesets@);
        // The stored changes, appended to their changesets.
        let mut i: usize = 0;
        while i < s.deltas.len()
            invariant
                i <= s.deltas@.len(),
                r.wf(),
                r.repo_id@ == s.repo_id@,
                r.branches@.len() == 0,
                r.snapshots@.len() == 0,
                to_map(r.changesets@) == with_deltas(cs0, s.deltas@.take(i as int)),
            decreases s.deltas@.len() - i,
        {
            proof {
                assert(s.deltas@.take(i + 1).drop_last() =~= s.deltas@.take(i as int));
                assert(s.deltas@.take(i + 1).last() == s.deltas@[i as int]);
            }
            match find_key(&r.changesets, s.deltas[i].changeset_id.as_str()) {
                Some(k) => {
                    proof {
                        lemma_index_of_key(r.changesets@, k as int);
                    }
                    let mut c = r.changesets[k].clone();
                    let ghost before = c.assets@;
                    c.assets.push(s.deltas[i].delta.clone());
                    proof {
                        assert(deltas_view(c.assets@) =~= deltas_view(before).push(s.deltas@[i as int].delta@));
                    }
                    replace_at(&mut r.changesets, k, c);
                },
                None => {},
            }
            i = i + 1;
        }
        proof {
            assert(s.deltas@.take(s.deltas@.len() as int) =~= s.deltas@);
        }
        // The snapshot entries, under their changesets.
        let mut i: usize = 0;
        while i < s.snapshot_rows.len()
            invariant
                i <= s.snapshot_rows@.len(),
                r.wf(),
                r.repo_id@ == s.repo_id@,
                r.branches@.len() == 0,
                to_map(r.changesets@) == with_deltas(cs0, s.deltas@),
                to_map(r.snapshots@) == snapshot_table(s.snapshot_rows@.take(i as int)),
            decreases s.snapshot_rows@.len() - i,
        {
            proof {
                assert(s.snapshot_rows@.take(i + 1).drop_last() =~= s.snapshot_rows@.take(i as int));
                assert(s.snapshot_rows@.take(i + 1).last() == s.snapshot_rows@[i as int]);
            }
            let row = &s.snapshot_rows[i];
            match find_key(&r.snapshots, row.changeset_id.as_str()) {
                Some(k) => {
                    proof {
                        lemma_index_of_key(r.snapshots@, k as int);
                    }
                    let mut entries = clone_entries(&r.snapshots[k].entries);
                    upsert(&mut entries, row.entry.clone());
                    let rec = SnapshotRecord { changeset_id: row.changeset_id.clone(), entries };
                    let ghost before = r.snapshots@;
                    replace_at(&mut r.snapshots, k, rec);
                    proof {
                        assert forall|j: int| 0 <= j < r.snapshots@.len() implies unique_keys(
                            #[trigger] r.snapshots@[j].entries@,
                        ) by {
                            if j != k {
                                assert(r.snapshots@[j] == before[j]);
                            }
                        }
                    }
                },
                None => {
                    let mut entries: Vec<SnapshotEntry> = Vec::new();
                    proof {
                        lemma_to_map_empty(entries@);
                    }
                    upsert(&mut entries, row.entry.clone());
                    let rec = SnapshotRecord { changeset_id: row.changeset_id.clone(), entries };
                    let ghost before = r.snapshots@;
                    upsert(&mut r.snapshots, rec);
                    proof {
                        assert forall|j: int| 0 <= j < r.snapshots@.len() implies unique_keys(
                            #[trigger] r.snapshots@[j].entries@,
                        ) by {
                            if r.snapshots@[j] != rec {
                                let m = choose|m: int| 0 <= m < before.len() && before[m] == r.snapshots@[j];
                                assert(unique_keys(before[m].entries@));
                            }
                        }
                    }
                },
            }
            i = i + 1;
        }
        proof {
            assert(s.snapshot_rows@.take(s.snapshot_rows@.len() as int) =~= s.snapshot_rows@);
        }
        // The branches, each with the history that leads to its head.
        let ghost cs = to_map(r.changesets@);
        let mut default_branch = DEFAULT_BRANCH_NAME.to_owned();
        let mut i: usize = 0;
        while i < s.branches.len()
            invariant
                i <= s.branches@.len(),
                r.wf(),
                r.repo_id@ == s.repo_id@,
                to_map(r.changesets@) == cs,
                cs == with_deltas(cs0, s.deltas@),
                to_map(r.snapshots@) == snapshot_table(s.snapshot_rows@),
                to_map(r.branches@) == branch_table(s.branches@.take(i as int), cs),
                default_branch@ == stored_default(s.branches@.take(i as int)),
            decreases s.branches@.len() - i,
        {
            proof {
                assert(s.branches@.take(i + 1).drop_last() =~= s.branches@.take(i as int));
                assert(s.branches@.take(i + 1).last() == s.branches@[i as int]);
            }
            let b = s.branches[i].clone();
            let mut history: Vec<String> = Vec::new();
            proof {
                assert(r.model().changesets == cs);
                assert(strings_view(history@) =~= Seq::<Seq<char>>::empty());
            }
            match &b.head_changeset_id {
                Some(h) => match r.lineage_to(h.as_str()) {
                    Some(v) => {
                        history = v;
                    },
                    None => {},
                },
                None => {},
            }
            assert(strings_view(history@) == history_to(cs, b.record_head()));
            if b.is_default {
                default_branch = b.name.clone();
            }
            upsert(&mut r.branches, BranchState { record: b, history });
            proof {
                assert forall|j: int| 0 <= j < r.snapshots@.len() implies unique_keys(
                    #[trigger] r.snapshots@[j].entries@,
                ) by {}
            }
            i = i + 1;
        }
        proof {
            assert(s.branches@.take(s.branches@.len() as int) =~= s.branches@);
        }
        r.default_branch = default_branch;
        if s.branches.len() == 0 {
            r.ensure_default_branch(s.created_by.as_str(), now);
        }
        r
    }
}

/// A repository as the database writes it: its id, who created it, its
/// default branch, the records of its branches, its changesets (each with
/// its changes) and its snapshots.
#[derive(Debug)]
pub struct RepoRows {
    pub repo_id: String,
    pub created_by: String,
    pub default_branch: String,
    pub branches: Vec<BranchRecord>,
    pub changesets: Vec<ChangesetRecord>,
    pub snapshots: Vec<SnapshotRecord>,
}

/// Who the database names as a repository's creator: the creator of its
/// default branch; else the creator of one of its branches; else `system`.
pub open spec fn creator_is(repo: RepoView, created_by: Seq<char>) -> bool {
    if repo.branches.contains_key(repo.default_branch) {
        created_by == repo.branches[repo.default_branch].record.created_by
    } else if exists|n: Seq<char>| repo.branches.contains_key(n) {
        exists|n: Seq<char>| repo.branches.contains_key(n) && created_by == repo.branches[n].record.created_by
    } else {
        created_by == "system"@
    }
}

/// The rows that the database keeps of `repo`.
pub open spec fn rows_of(repo: RepoView, rows: RepoRows) -> bool {
    &&& creator_is(repo, rows.created_by@)
    &&& rows.default_branch@ == repo.default_branch
    &&& unique_keys(rows.branches@)
    &&& to_map(rows.branches@) == repo.branches.map_values(|b: BranchView| b.record)
    &&& unique_keys(rows.changesets@)
    &&& to_map(rows.changesets@) == repo.changesets
    &&& unique_keys(rows.snapshots@)
    &&& to_map(rows.snapshots@) == repo.snapshots
    &&& forall|i: int| 0 <= i < rows.snapshots@.len() ==> unique_keys(#[trigger] rows.snapshots@[i].entries@)
}

impl RepoState {
    /// The rows that the database keeps of this repository.
    pub fn rows(&self) -> (r: RepoRows)
        requires
            self.wf(),
        ensures
            r.repo_id@ == self.repo_id@,
            rows_of(self.model(), r),
    {
        proof {
            reveal_strlit("system");
        }
        let created_by = match find_key(&self.branches, self.default_branch.as_str()) {
            Some(k) => {
                proof {
                    lemma_index_of_key(self.branches@, k as int);
                }
                self.branches[k].record.created_by.clone()
            },
            None => if self.branches.len() > 0 {
                proof {
                    lemma_index_of_key(self.branches@, 0);
                }
                self.branches[0].record.created_by.clone()
            } else {
                proof {
                    lemma_to_map_empty(self.branches@);
                }
                "system".to_owned()
            },
        };
        let mut branches: Vec<BranchRecord> = Vec::new();
        let mut i: usize = 0;
        while i < self.branches.len()
            invariant
                i <= self.branches@.len(),
                branches@.len() == i,
                forall|j: int| 0 <= j < i ==> #[trigger] branches@[j] == self.branches@[j].record,
            decreases self.branches@.len() - i,
        {
            branches.push(self.branches[i].record.clone());
            i = i + 1;
        }
        let mut changesets: Vec<ChangesetRecord> = Vec::new();
        let mut i: usize = 0;
        while i < self.changesets.len()
            invariant
                i <= self.changesets@.len(),
                changesets@.len() == i,
                forall|j: int| 0 <= j < i ==> #[trigger] changesets@[j]@ == self.changesets@[j]@,
            decreases self.changesets@.len() - i,
        {
            changesets.push(self.changesets[i].clone());
            i = i + 1;
        }
        let mut snapshots: Vec<SnapshotRecord> = Vec::new();
        let mut i: usize = 0;
        while i < self.snapshots.len()
            invariant
                i <= self.snapshots@.len(),
                snapshots@.len() == i,
                forall|j: int|
                    0 <= j < i ==> (#[trigger] snapshots@[j]).changeset_id@ == self.snapshots@[j].changeset_id@
                        && snapshots@[j].entries@ == self.snapshots@[j].entries@,
            decreases self.snapshots@.len() - i,
        {
            let rec = SnapshotRecord {
                changeset_id: self.snapshots[i].changeset_id.clone(),
                entries: clone_entries(&self.snapshots[i].entries),
            };
            snapshots.push(rec);
            i = i + 1;
        }
        let r = RepoRows {
            repo_id: self.repo_id.clone(),
            created_by,
            default_branch: self.default_branch.clone(),
            branches,
            changesets,
            snapshots,
        };
        proof {
            let m = self.model();
            // Branches.
            assert forall|a: int, b: int|
                0 <= a < r.branches@.len() && 0 <= b < r.branches@.len() && #[trigger] r.branches@[a].key_of()
                    == #[trigger] r.branches@[b].key_of() implies a == b by {
                assert(r.branches@[a] == self.branches@[a].record);
                assert(r.branches@[b] == self.branches@[b].record);
                assert(self.branches@[a].key_of() == self.branches@[b].key_of());
            }
            assert forall|k: Seq<char>| #[trigger] to_map(r.branches@).contains_key(k) <==> m.branches.contains_key(k) by {
                if has_key(r.branches@, k) {
                    let j = choose|j: int| 0 <= j < r.branches@.len() && #[trigger] r.branches@[j].key_of() == k;
                    lemma_index_of_key(self.branches@, j);
                }
                if has_key(self.branches@, k) {
                    let j = choose|j: int| 0 <= j < self.branches@.len() && #[trigger] self.branches@[j].key_of() == k;
                    assert(r.branches@[j].key_of() == k);
                }
            }
            assert forall|k: Seq<char>| #[trigger] to_map(r.branches@).contains_key(k) implies to_map(r.branches@)[k]
                == m.branches.map_values(|b: BranchView| b.record)[k] by {
                let j = index_of_key(r.branches@, k);
                lemma_index_of_key(r.branches@, j);
                lemma_index_of_key(self.branches@, j);
            }
            assert(to_map(r.branches@) =~= m.branches.map_values(|b: BranchView| b.record));
            // Changesets.
            assert forall|a: int, b: int|
                0 <= a < r.changesets@.len() && 0 <= b < r.changesets@.len() && #[trigger] r.changesets@[a].key_of()
                    == #[trigger] r.changesets@[b].key_of() implies a == b by {
                assert(r.changesets@[a]@ == self.changesets@[a]@);
                assert(r.changesets@[b]@ == self.changesets@[b]@);
                assert(self.changesets@[a].key_of() == self.changesets@[b].key_of());
            }
            assert forall|k: Seq<char>| #[trigger] to_map(r.changesets@).contains_key(k) <==> m.changesets.contains_key(k) by {
                if has_key(r.changesets@, k) {
                    let j = choose|j: int| 0 <= j < r.changesets@.len() && #[trigger] r.changesets@[j].key_of() == k;
                    assert(r.changesets@[j]@ == self.changesets@[j]@);
                    lemma_index_of_key(self.changesets@, j);
                }
                if has_key(self.changesets@, k) {
                    let j = choose|j: int| 0 <= j < self.changesets@.len() && #[trigger] self.changesets@[j].key_of() == k;
                    assert(r.changesets@[j]@ == self.changesets@[j]@);
                    assert(r.changesets@[j].key_of() == k);
                }
            }
            assert forall|k: Seq<char>| #[trigger] to_map(r.changesets@).contains_key(k) implies to_map(r.changesets@)[k]
                == m.changesets[k] by {
                let j = index_of_key(r.changesets@, k);
                lemma_index_of_key(r.changesets@, j);
                lemma_index_of_key(self.changesets@, j);
            }
            assert(to_map(r.changesets@) =~= m.changesets);
            // Snapshots.
            assert forall|a: int, b: int|
                0 <= a < r.snapshots@.len() && 0 <= b < r.snapshots@.len() && #[trigger] r.snapshots@[a].key_of()
                    == #[trigger] r.snapshots@[b].key_of() implies a == b by {
                assert(self.snapshots@[a].key_of() == self.snapshots@[b].key_of());
            }
            assert forall|k: Seq<char>| #[trigger] to_map(r.snapshots@).contains_key(k) <==> m.snapshots.contains_key(k) by {
                if has_key(r.snapshots@, k) {
                    let j = choose|j: int| 0 <= j < r.snapshots@.len() && #[trigger] r.snapshots@[j].key_of() == k;
                    lemma_index_of_key(self.snapshots@, j);
                }
                if has_key(self.snapshots@, k) {
                    let j = choose|j: int| 0 <= j < self.snapshots@.len() && #[trigger] self.snapshots@[j].key_of() == k;
                    assert(r.snapshots@[j].key_of() == k);
                }
            }
            assert forall|k: Seq<char>| #[trigger] to_map(r.snapshots@).contains_key(k) implies to_map(r.snapshots@)[k]
                == m.snapshots[k] by {
                let j = index_of_key(r.snapshots@, k);
                lemma_index_of_key(r.snapshots@, j);
                lemma_index_of_key(self.snapshots@, j);
            }
            assert(to_map(r.snapshots@) =~= m.snapshots);
            assert forall|j: int| 0 <= j < r.snapshots@.len() implies unique_keys(#[trigger] r.snapshots@[j].entries@) by {
                assert(unique_keys(self.snapshots@[j].entries@));
            }
            // The creator.
            if !m.branches.contains_key(m.default_branch) && self.branches@.len() > 0 {
                assert(m.branches.contains_key(self.branches@[0].key_of()));
            }
        }
        r
    }
}

} // verus!
