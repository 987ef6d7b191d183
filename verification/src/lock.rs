//! Exclusive, leased locks on asset files.
use vstd::prelude::*;
use dashmap::DashMap;
use crate::keyed::{Keyed, unique_keys, to_map, has_key, lemma_index_of_key, lemma_to_map_empty, lemma_to_map_push};
use crate::text::{str_eq, text_concat};
use crate::clock::{now_millis, MAX_ABS_TIME_MILLIS};

verus! {

#[verifier::external_type_specification]
#[verifier::external_body]
#[verifier::reject_recursive_types(K)]
#[verifier::reject_recursive_types(V)]
#[verifier::reject_recursive_types(S)]
pub struct ExDashMap<K, V, S>(dashmap::DashMap<K, V, S>);

/// The largest lease, in seconds, that a lock manager takes.
pub const MAX_LEASE_SECONDS: i64 = 9_000_000_000_000_000;

/// A lock held on one file.
#[derive(Debug)]
pub struct FileLock {
    pub file_path: String,
    pub owner_id: String,
    /// Milliseconds since the Unix epoch.
    pub locked_at: i64,
    /// Milliseconds since the Unix epoch; `None` for a lock that never expires.
    pub lease_expires_at: Option<i64>,
}

pub struct FileLockView {
    pub file_path: Seq<char>,
    pub owner_id: Seq<char>,
    pub locked_at: i64,
    pub lease_expires_at: Option<i64>,
}

impl View for FileLock {
    type V = FileLockView;

    open spec fn view(&self) -> FileLockView {
        FileLockView {
            file_path: self.file_path@,
            owner_id: self.owner_id@,
            locked_at: self.locked_at,
            lease_expires_at: self.lease_expires_at,
        }
    }
}

impl Clone for FileLock {
    fn clone(&self) -> (r: Self)
        ensures
            r == *self,
    {
        FileLock {
            file_path: self.file_path.clone(),
            owner_id: self.owner_id.clone(),
            locked_at: self.locked_at,
            lease_expires_at: self.lease_expires_at,
        }
    }
}

impl Keyed for FileLock {
    type Model = FileLockView;

    open spec fn key_of(&self) -> Seq<char> {
        self.file_path@
    }

    open spec fn model(&self) -> FileLockView {
        self@
    }

    fn key(&self) -> (k: &str) {
        self.file_path.as_str()
    }
}

/// The table of locks, by file path.
pub type LockTable = DashMap<String, FileLock>;

/// What a `DashMap` of locks holds: each file path with its lock.
pub uninterp spec fn lock_table(m: LockTable) -> Map<Seq<char>, FileLockView>;

/// Calls `DashMap::new`: the table is empty.
#[verifier::external_body]
fn lock_table_new() -> (table: LockTable)
    ensures
        lock_table(table) == (Map::<Seq<char>, FileLockView>::empty()),
{
    DashMap::new()
}

/// Calls `DashMap::get` and clones the value: the lock stored under `key`, if any.
#[verifier::external_body]
fn lock_table_get(m: &LockTable, key: &str) -> (r: Option<FileLock>)
    ensures
        r is Some <==> lock_table(*m).contains_key(key@),
        r is Some ==> lock_table(*m)[key@] == r->0@,
{
    match m.get(key) {
        Some(entry) => Some(entry.value().clone()),
        None => None,
    }
}

/// Calls `DashMap::insert`: `value` is stored under `key`, in place of what was there.
#[verifier::external_body]
fn lock_table_insert(m: &mut LockTable, key: String, value: FileLock)
    ensures
        lock_table(*final(m)) == lock_table(*old(m)).insert(key@, value@),
{
    m.insert(key, value);
}

/// Calls `DashMap::remove`: nothing is stored under `key` afterwards; the
/// result says whether something was.
#[verifier::external_body]
fn lock_table_remove(m: &mut LockTable, key: &str) -> (r: bool)
    ensures
        lock_table(*final(m)) == lock_table(*old(m)).remove(key@),
        r == lock_table(*old(m)).contains_key(key@),
{
    m.remove(key).is_some()
}

/// Calls `DashMap::iter` and clones each entry: every key with its lock, once
/// each, in an order that the table's hashing decides.
#[verifier::external_body]
fn lock_table_entries(m: &LockTable) -> (r: Vec<(String, FileLock)>)
    ensures
        forall|i: int, j: int|
            0 <= i < r@.len() && 0 <= j < r@.len() && r@[i].0@ == r@[j].0@ ==> i == j,
        forall|i: int|
            0 <= i < r@.len() ==> lock_table(*m).contains_key(#[trigger] r@[i].0@)
                && lock_table(*m)[r@[i].0@] == r@[i].1@,
        forall|k: Seq<char>|
            #[trigger] lock_table(*m).contains_key(k) ==> exists|i: int|
                0 <= i < r@.len() && r@[i].0@ == k,
{
    m.iter().map(|entry| (entry.key().clone(), entry.value().clone())).collect()
}

/// The moment a lease taken at `now` ends: at least 30 seconds later.
pub open spec fn lease_expiry(now: i64, lease_seconds: i64) -> int {
    now + (if lease_seconds < 30 {
        30
    } else {
        lease_seconds
    }) * 1000
}

/// Whether a lock's lease has run out at `now`.
pub open spec fn is_expired(l: FileLockView, now: i64) -> bool {
    match l.lease_expires_at {
        Some(e) => e <= now,
        None => false,
    }
}

pub open spec fn time_in_range(now: i64) -> bool {
    -MAX_ABS_TIME_MILLIS < now < MAX_ABS_TIME_MILLIS
}

/// The state of a lock manager.
pub struct LockState {
    pub locks: Map<Seq<char>, FileLockView>,
    pub lease_seconds: i64,
}

/// The lock that `owner` asks for at `now`.
pub open spec fn requested_lock(path: Seq<char>, owner: Seq<char>, now: i64, lease_seconds: i64) -> FileLockView {
    FileLockView {
        file_path: path,
        owner_id: owner,
        locked_at: now,
        lease_expires_at: Some(lease_expiry(now, lease_seconds) as i64),
    }
}

/// The table and the result after `owner` asks to lock `path` at `now`: an
/// expired lock is replaced, a live lock of another owner refuses the request,
/// a live lock of the same owner is given back unchanged.
pub open spec fn try_lock_spec(s: LockState, path: Seq<char>, owner: Seq<char>, now: i64) -> (
    Map<Seq<char>, FileLockView>,
    Result<FileLockView, Seq<char>>,
) {
    let req = requested_lock(path, owner, now, s.lease_seconds);
    if !s.locks.contains_key(path) || is_expired(s.locks[path], now) {
        (s.locks.insert(path, req), Ok(req))
    } else if s.locks[path].owner_id != owner {
        (s.locks, Err("File is already locked by "@ + s.locks[path].owner_id))
    } else {
        (s.locks, Ok(s.locks[path]))
    }
}

/// The table and the result after `owner` asks to renew its lock on `path` at `now`.
pub open spec fn renew_spec(s: LockState, path: Seq<char>, owner: Seq<char>, now: i64) -> (
    Map<Seq<char>, FileLockView>,
    Result<FileLockView, Seq<char>>,
) {
    if !s.locks.contains_key(path) {
        (s.locks, Err("File is not locked"@))
    } else if s.locks[path].owner_id != owner {
        (s.locks, Err("Cannot renew: File is locked by "@ + s.locks[path].owner_id))
    } else if is_expired(s.locks[path], now) {
        (s.locks.remove(path), Err("Cannot renew: lock lease expired"@))
    } else {
        let renewed = FileLockView {
            lease_expires_at: Some(lease_expiry(now, s.lease_seconds) as i64),
            ..s.locks[path]
        };
        (s.locks.insert(path, renewed), Ok(renewed))
    }
}

/// The table and the result after `owner` asks to release its lock on `path`.
pub open spec fn unlock_spec(s: LockState, path: Seq<char>, owner: Seq<char>) -> (
    Map<Seq<char>, FileLockView>,
    Result<(), Seq<char>>,
) {
    if !s.locks.contains_key(path) {
        (s.locks, Err("File is not locked"@))
    } else if s.locks[path].owner_id != owner {
        (s.locks, Err("Cannot unlock: File is locked by "@ + s.locks[path].owner_id))
    } else {
        (s.locks.remove(path), Ok(()))
    }
}

/// The live lock on `path` at `now`, if any.
pub open spec fn live_lock(locks: Map<Seq<char>, FileLockView>, path: Seq<char>, now: i64) -> Option<
    FileLockView,
> {
    if locks.contains_key(path) && !is_expired(locks[path], now) {
        Some(locks[path])
    } else {
        None
    }
}

/// The live locks at `now`, by path.
pub open spec fn live_locks(locks: Map<Seq<char>, FileLockView>, now: i64) -> Map<Seq<char>, FileLockView> {
    locks.restrict(locks.dom().filter(|p: Seq<char>| !is_expired(locks[p], now)))
}

pub open spec fn result_lock_view(r: Result<FileLock, String>) -> Result<FileLockView, Seq<char>> {
    match r {
        Ok(l) => Ok(l@),
        Err(e) => Err(e@),
    }
}

pub open spec fn result_unit_view(r: Result<(), String>) -> Result<(), Seq<char>> {
    match r {
        Ok(()) => Ok(()),
        Err(e) => Err(e@),
    }
}

/// The locks that the service holds, one per file.
pub struct LockManager {
    locks: LockTable,
    lease_seconds: i64,
}

impl View for LockManager {
    type V = LockState;

    closed spec fn view(&self) -> LockState {
        LockState { locks: lock_table(self.locks), lease_seconds: self.lease_seconds }
    }
}

/// The lock table that holds `locks`, each stored under its file path in
/// turn, so that the last lock of a path wins.
pub open spec fn table_of(locks: Seq<FileLock>) -> Map<Seq<char>, FileLockView>
    decreases locks.len(),
{
    if locks.len() == 0 {
        Map::empty()
    } else {
        table_of(locks.drop_last()).insert(locks.last().file_path@, locks.last()@)
    }
}

/// Every lock of the table is stored under its own file path.
pub open spec fn keyed_by_path(locks: Map<Seq<char>, FileLockView>) -> bool {
    forall|p: Seq<char>| #[trigger] locks.contains_key(p) ==> locks[p].file_path == p
}

impl LockManager {
    /// Every lock is stored under its own file path, and the lease is in range.
    pub open spec fn wf(&self) -> bool {
        &&& keyed_by_path(self@.locks)
        &&& self@.lease_seconds <= MAX_LEASE_SECONDS
    }

    /// An empty lock table whose leases last `lease_seconds` (at least 30).
    pub fn new(lease_seconds: i64) -> (r: LockManager)
        requires
            lease_seconds <= MAX_LEASE_SECONDS,
        ensures
            r.wf(),
            r@.locks == Map::<Seq<char>, FileLockView>::empty(),
            r@.lease_seconds == lease_seconds,
    {
        LockManager { locks: lock_table_new(), lease_seconds }
    }

    /// A lock table that holds `existing` locks (the last one for each path wins).
    pub fn from_locks(existing: Vec<FileLock>, lease_seconds: i64) -> (r: LockManager)
        requires
            lease_seconds <= MAX_LEASE_SECONDS,
        ensures
            r.wf(),
            r@.lease_seconds == lease_seconds,
            r@.locks == table_of(existing@),
    {
        let mut r = LockManager::new(lease_seconds);
        let mut i: usize = 0;
        while i < existing.len()
            invariant
                r.wf(),
                r@.lease_seconds == lease_seconds,
                i <= existing@.len(),
                r@.locks == table_of(existing@.take(i as int)),
            decreases existing@.len() - i,
        {
            let l = existing[i].clone();
            r.adopt_lock(l);
            proof {
                assert(existing@.take(i + 1).drop_last() =~= existing@.take(i as int));
                assert(existing@.take(i + 1).last() == existing@[i as int]);
            }
            i = i + 1;
        }
        proof {
            assert(existing@.take(existing@.len() as int) =~= existing@);
        }
        r
    }

    /// Stores `lock` under its file path, in place of any lock there.
    pub fn adopt_lock(&mut self, lock: FileLock)
        requires
            old(self).wf(),
        ensures
            final(self).wf(),
            final(self)@.lease_seconds == old(self)@.lease_seconds,
            final(self)@.locks == old(self)@.locks.insert(lock.file_path@, lock@),
    {
        let key = lock.file_path.clone();
        lock_table_insert(&mut self.locks, key, lock);
    }

    fn requested(&self, file_path: &String, owner_id: &String, now: i64) -> (r: FileLock)
        requires
            self.wf(),
            time_in_range(now),
        ensures
            r@ == requested_lock(file_path@, owner_id@, now, self@.lease_seconds),
    {
        let secs: i64 = if self.lease_seconds < 30 {
            30
        } else {
            self.lease_seconds
        };
        FileLock {
            file_path: file_path.clone(),
            owner_id: owner_id.clone(),
            locked_at: now,
            lease_expires_at: Some(now + secs * 1000),
        }
    }

    /// Asks for the lock on `file_path` for `owner_id`, at time `now`.
    pub fn try_lock_at(&mut self, file_path: String, owner_id: String, now: i64) -> (r: Result<
        FileLock,
        String,
    >)
        requires
            old(self).wf(),
            time_in_range(now),
        ensures
            final(self).wf(),
            final(self)@.lease_seconds == old(self)@.lease_seconds,
            (final(self)@.locks, result_lock_view(r)) == try_lock_spec(old(self)@, file_path@, owner_id@, now),
    {
        let requested = self.requested(&file_path, &owner_id, now);
        proof {
            reveal_strlit("File is already locked by ");
        }
        match lock_table_get(&self.locks, file_path.as_str()) {
            Some(existing) => {
                if lock_expired(&existing, now) {
                    let result = requested.clone();
                    lock_table_insert(&mut self.locks, file_path, requested);
                    Ok(result)
                } else if !str_eq(existing.owner_id.as_str(), owner_id.as_str()) {
                    Err(text_concat("File is already locked by ", existing.owner_id.as_str()))
                } else {
                    Ok(existing)
                }
            },
            None => {
                let result = requested.clone();
                lock_table_insert(&mut self.locks, file_path, requested);
                Ok(result)
            },
        }
    }

    /// Asks for the lock on `file_path` for `owner_id`, now.
    pub fn try_lock(&mut self, file_path: String, owner_id: String) -> (r: Result<FileLock, String>)
        requires
            old(self).wf(),
        ensures
            final(self).wf(),
            final(self)@.lease_seconds == old(self)@.lease_seconds,
            exists|now: i64|
                time_in_range(now) && (final(self)@.locks, result_lock_view(r)) == try_lock_spec(
                    old(self)@,
                    file_path@,
                    owner_id@,
                    now,
                ),
    {
        let now = now_millis();
        let ghost (fp, ow) = (file_path@, owner_id@);
        let r = self.try_lock_at(file_path, owner_id, now);
        assert(time_in_range(now) && (self@.locks, result_lock_view(r)) == try_lock_spec(
            old(self)@,
            fp,
            ow,
            now,
        ));
        r
    }

    /// Extends the lease of `owner_id`'s lock on `file_path`, at time `now`.
    pub fn renew_lock_at(&mut self, file_path: &str, owner_id: &str, now: i64) -> (r: Result<FileLock, String>)
        requires
            old(self).wf(),
            time_in_range(now),
        ensures
            final(self).wf(),
            final(self)@.lease_seconds == old(self)@.lease_seconds,
            (final(self)@.locks, result_lock_view(r)) == renew_spec(old(self)@, file_path@, owner_id@, now),
    {
        proof {
            reveal_strlit("File is not locked");
            reveal_strlit("Cannot renew: File is locked by ");
            reveal_strlit("Cannot renew: lock lease expired");
        }
        let existing = match lock_table_get(&self.locks, file_path) {
            Some(l) => l,
            None => {
                return Err("File is not locked".to_owned());
            },
        };
        if !str_eq(existing.owner_id.as_str(), owner_id) {
            return Err(text_concat("Cannot renew: File is locked by ", existing.owner_id.as_str()));
        }
        if lock_expired(&existing, now) {
            lock_table_remove(&mut self.locks, file_path);
            return Err("Cannot renew: lock lease expired".to_owned());
        }
        let secs: i64 = if self.lease_seconds < 30 {
            30
        } else {
            self.lease_seconds
        };
        let renewed = FileLock {
            file_path: existing.file_path,
            owner_id: existing.owner_id,
            locked_at: existing.locked_at,
            lease_expires_at: Some(now + secs * 1000),
        };
        let result = renewed.clone();
        lock_table_insert(&mut self.locks, file_path.to_owned(), renewed);
        proof {
            assert(lock_table(self.locks) =~= renew_spec(old(self)@, file_path@, owner_id@, now).0);
        }
        Ok(result)
    }

    /// Extends the lease of `owner_id`'s lock on `file_path`, now.
    pub fn renew_lock(&mut self, file_path: &str, owner_id: &str) -> (r: Result<FileLock, String>)
        requires
            old(self).wf(),
        ensures
            final(self).wf(),
            final(self)@.lease_seconds == old(self)@.lease_seconds,
            exists|now: i64|
                time_in_range(now) && (final(self)@.locks, result_lock_view(r)) == renew_spec(
                    old(self)@,
                    file_path@,
                    owner_id@,
                    now,
                ),
    {
        let now = now_millis();
        let r = self.renew_lock_at(file_path, owner_id, now);
        assert(time_in_range(now) && (self@.locks, result_lock_view(r)) == renew_spec(
            old(self)@,
            file_path@,
            owner_id@,
            now,
        ));
        r
    }

    /// Releases `owner_id`'s lock on `file_path`; only the owner can.
    pub fn unlock(&mut self, file_path: &str, owner_id: &str) -> (r: Result<(), String>)
        requires
            old(self).wf(),
        ensures
            final(self).wf(),
            final(self)@.lease_seconds == old(self)@.lease_seconds,
            (final(self)@.locks, result_unit_view(r)) == unlock_spec(old(self)@, file_path@, owner_id@),
    {
        proof {
            reveal_strlit("File is not locked");
            reveal_strlit("Cannot unlock: File is locked by ");
        }
        match lock_table_get(&self.locks, file_path) {
            Some(existing) => {
                if !str_eq(existing.owner_id.as_str(), owner_id) {
                    return Err(text_concat("Cannot unlock: File is locked by ", existing.owner_id.as_str()));
                }
            },
            None => {
                return Err("File is not locked".to_owned());
            },
        }
        lock_table_remove(&mut self.locks, file_path);
        Ok(())
    }

    /// Releases the lock on `file_path`, whoever holds it; says whether there was one.
    pub fn force_unlock(&mut self, file_path: &str) -> (r: bool)
        requires
            old(self).wf(),
        ensures
            final(self).wf(),
            final(self)@.lease_seconds == old(self)@.lease_seconds,
            final(self)@.locks == old(self)@.locks.remove(file_path@),
            r == old(self)@.locks.contains_key(file_path@),
    {
        lock_table_remove(&mut self.locks, file_path)
    }

    /// The locks that are live at `now`, in no particular order.
    pub fn list_locks_at(&self, now: i64) -> (r: Vec<FileLock>)
        requires
            self.wf(),
        ensures
            unique_keys(r@),
            to_map(r@) == live_locks(self@.locks, now),
    {
        let entries = lock_table_entries(&self.locks);
        let ghost t = lock_table(self.locks);
        let mut r: Vec<FileLock> = Vec::new();
        let mut i: usize = 0;
        proof {
            lemma_to_map_empty(r@);
        }
        while i < entries.len()
            invariant
                self.wf(),
                t == lock_table(self.locks),
                i <= entries@.len(),
                forall|a: int, b: int|
                    0 <= a < entries@.len() && 0 <= b < entries@.len() && entries@[a].0@
                        == entries@[b].0@ ==> a == b,
                forall|a: int|
                    0 <= a < entries@.len() ==> t.contains_key(#[trigger] entries@[a].0@)
                        && t[entries@[a].0@] == entries@[a].1@,
                unique_keys(r@),
                to_map(r@) == Map::new(
                    |p: Seq<char>| (exists|a: int| 0 <= a < i && #[trigger] entries@[a].0@ == p)
                        && !is_expired(t[p], now),
                    |p: Seq<char>| t[p],
                ),
            decreases entries@.len() - i,
        {
            let l = entries[i].1.clone();
            let ghost p = entries@[i as int].0@;
            proof {
                assert(t.contains_key(p));
                assert(t[p].file_path == p);
            }
            if !lock_expired(&l, now) {
                proof {
                    if has_key(r@, p) {
                        assert(to_map(r@).contains_key(p));
                        let a = choose|a: int| 0 <= a < i && #[trigger] entries@[a].0@ == p;
                    }
                    lemma_to_map_push(r@, l);
                }
                r.push(l);
            }
            proof {
                let next = Map::new(
                    |q: Seq<char>| (exists|a: int| 0 <= a < i + 1 && #[trigger] entries@[a].0@ == q)
                        && !is_expired(t[q], now),
                    |q: Seq<char>| t[q],
                );
                assert forall|q: Seq<char>| #[trigger] next.contains_key(q) <==> to_map(r@).contains_key(q) by {
                    if next.contains_key(q) && q != p {
                        let a = choose|a: int| 0 <= a < i + 1 && #[trigger] entries@[a].0@ == q;
                        assert(a < i);
                    }
                    if to_map(r@).contains_key(q) && q != p {
                        let a = choose|a: int| 0 <= a < i && #[trigger] entries@[a].0@ == q;
                        assert(0 <= a < i + 1 && entries@[a].0@ == q);
                    }
                    if q == p {
                        assert(entries@[i as int].0@ == q);
                    }
                }
                assert(to_map(r@) =~= next);
            }
            i = i + 1;
        }
        proof {
            assert forall|q: Seq<char>| #[trigger] to_map(r@).contains_key(q) <==> live_locks(t, now).contains_key(q) by {
                if t.contains_key(q) {
                    let a = choose|a: int| 0 <= a < entries@.len() && entries@[a].0@ == q;
                    assert(0 <= a < entries@.len() && entries@[a].0@ == q);
                }
            }
            assert(to_map(r@) =~= live_locks(t, now));
        }
        r
    }

    /// The locks that are live now, in no particular order.
    pub fn list_locks(&self) -> (r: Vec<FileLock>)
        requires
            self.wf(),
        ensures
            unique_keys(r@),
            exists|now: i64| to_map(r@) == live_locks(self@.locks, now),
    {
        let now = now_millis();
        self.list_locks_at(now)
    }

    /// The live lock on `file_path` at `now`, if any.
    pub fn get_lock_at(&self, file_path: &str, now: i64) -> (r: Option<FileLock>)
        requires
            self.wf(),
        ensures
            match r {
                Some(l) => live_lock(self@.locks, file_path@, now) == Some(l@),
                None => live_lock(self@.locks, file_path@, now) is None,
            },
    {
        match lock_table_get(&self.locks, file_path) {
            Some(l) => {
                if lock_expired(&l, now) {
                    None
                } else {
                    Some(l)
                }
            },
            None => None,
        }
    }

    /// The live lock on `file_path` now, if any.
    pub fn get_lock(&self, file_path: &str) -> (r: Option<FileLock>)
        requires
            self.wf(),
        ensures
            exists|now: i64|
                match r {
                    Some(l) => live_lock(self@.locks, file_path@, now) == Some(l@),
                    None => live_lock(self@.locks, file_path@, now) is None,
                },
    {
        let now = now_millis();
        self.get_lock_at(file_path, now)
    }
}

/// Mutual exclusion: while `holder`'s lock on `path` is live, a request of
/// another owner is refused and the table stays as it was.
pub proof fn live_lock_excludes_others(s: LockState, path: Seq<char>, holder: Seq<char>, other: Seq<char>, now: i64)
    requires
        live_lock(s.locks, path, now) is Some,
        live_lock(s.locks, path, now)->0.owner_id == holder,
        other != holder,
    ensures
        try_lock_spec(s, path, other, now).1 is Err,
        try_lock_spec(s, path, other, now).0 == s.locks,
{
}

/// What a lock request does: it is granted exactly when the path has no
/// lock, an expired one, or one of the asker; the lock granted is on that
/// path, for the asker, and is what a lookup at that time gives back; a
/// refused request leaves the table as it was.
pub proof fn lock_request_outcome(s: LockState, path: Seq<char>, owner: Seq<char>, now: i64)
    requires
        keyed_by_path(s.locks),
        s.lease_seconds <= MAX_LEASE_SECONDS,
        time_in_range(now),
    ensures
        ({
            let (t, r) = try_lock_spec(s, path, owner, now);
            &&& r is Ok <==> (!s.locks.contains_key(path) || is_expired(s.locks[path], now)
                || s.locks[path].owner_id == owner)
            &&& r is Ok ==> r->Ok_0.file_path == path && r->Ok_0.owner_id == owner && live_lock(t, path, now)
                == Some(r->Ok_0)
            &&& r is Err ==> t == s.locks
            &&& keyed_by_path(t)
        }),
{
}

/// A granted lock belongs to the one who asked, and is the live lock of its
/// path until its lease runs out.
pub proof fn granted_lock_is_live(s: LockState, path: Seq<char>, owner: Seq<char>, now: i64, later: i64)
    requires
        try_lock_spec(s, path, owner, now).1 is Ok,
        now <= later,
        ({
            let l = try_lock_spec(s, path, owner, now).1->Ok_0;
            l.lease_expires_at is None || later < l.lease_expires_at->0
        }),
    ensures
        try_lock_spec(s, path, owner, now).1->Ok_0.owner_id == owner,
        live_lock(try_lock_spec(s, path, owner, now).0, path, later) == Some(
            try_lock_spec(s, path, owner, now).1->Ok_0,
        ),
{
}

/// A fresh grant lasts at least 30 seconds.
pub proof fn fresh_grant_lasts(s: LockState, path: Seq<char>, owner: Seq<char>, now: i64)
    requires
        s.locks.contains_key(path) ==> is_expired(s.locks[path], now),
        s.lease_seconds <= MAX_LEASE_SECONDS,
        time_in_range(now),
    ensures
        try_lock_spec(s, path, owner, now).1 is Ok,
        try_lock_spec(s, path, owner, now).1->Ok_0.locked_at == now,
        try_lock_spec(s, path, owner, now).1->Ok_0.lease_expires_at == Some(
            lease_expiry(now, s.lease_seconds) as i64,
        ),
        lease_expiry(now, s.lease_seconds) >= now + 30000,
{
}

/// Asking again for a lock one already holds gives it back unchanged.
pub proof fn relock_by_holder_is_idempotent(s: LockState, path: Seq<char>, owner: Seq<char>, now: i64)
    requires
        live_lock(s.locks, path, now) is Some,
        live_lock(s.locks, path, now)->0.owner_id == owner,
    ensures
        try_lock_spec(s, path, owner, now) == (s.locks, Ok::<FileLockView, Seq<char>>(s.locks[path])),
{
}

/// Only the owner can release a lock: another owner is refused and the table
/// stays as it was; after the owner's release no lock is live on the path.
pub proof fn only_owner_unlocks(s: LockState, path: Seq<char>, owner: Seq<char>, other: Seq<char>, later: i64)
    requires
        s.locks.contains_key(path),
        s.locks[path].owner_id == owner,
        other != owner,
    ensures
        unlock_spec(s, path, other).1 is Err,
        unlock_spec(s, path, other).0 == s.locks,
        unlock_spec(s, path, owner).1 is Ok,
        live_lock(unlock_spec(s, path, owner).0, path, later) is None,
{
}

/// A renewal by the holder of a live lock keeps its owner and start, and moves
/// its end to a full lease after `now`.
pub proof fn renewal_extends_lease(s: LockState, path: Seq<char>, owner: Seq<char>, now: i64)
    requires
        live_lock(s.locks, path, now) is Some,
        live_lock(s.locks, path, now)->0.owner_id == owner,
    ensures
        renew_spec(s, path, owner, now).1 is Ok,
        renew_spec(s, path, owner, now).1->Ok_0.owner_id == owner,
        renew_spec(s, path, owner, now).1->Ok_0.locked_at == s.locks[path].locked_at,
        renew_spec(s, path, owner, now).1->Ok_0.lease_expires_at == Some(
            lease_expiry(now, s.lease_seconds) as i64,
        ),
        renew_spec(s, path, owner, now).0[path] == renew_spec(s, path, owner, now).1->Ok_0,
{
}

/// The length of a lease: a lock granted at `now` on a free or expired path
/// runs until exactly `now` plus the configured lease in milliseconds, or
/// plus 30 seconds when the configured lease is shorter than that.
pub proof fn grant_lease_length(s: LockState, path: Seq<char>, owner: Seq<char>, now: i64)
    requires
        s.locks.contains_key(path) ==> is_expired(s.locks[path], now),
        s.lease_seconds <= MAX_LEASE_SECONDS,
        time_in_range(now),
    ensures
        try_lock_spec(s, path, owner, now).1 is Ok,
        s.lease_seconds >= 30 ==> try_lock_spec(s, path, owner, now).1->Ok_0.lease_expires_at == Some(
            (now + s.lease_seconds * 1000) as i64,
        ),
        s.lease_seconds < 30 ==> try_lock_spec(s, path, owner, now).1->Ok_0.lease_expires_at == Some(
            (now + 30000) as i64,
        ),
        s.lease_seconds >= 30 ==> now + s.lease_seconds * 1000 <= i64::MAX,
        try_lock_spec(s, path, owner, now).0[path] == try_lock_spec(s, path, owner, now).1->Ok_0,
{
}

/// The length of a renewal: the holder's live lock renewed at `now` runs
/// until exactly `now` plus the configured lease in milliseconds, or plus 30
/// seconds when the configured lease is shorter than that.
pub proof fn renewal_lease_length(s: LockState, path: Seq<char>, owner: Seq<char>, now: i64)
    requires
        live_lock(s.locks, path, now) is Some,
        live_lock(s.locks, path, now)->0.owner_id == owner,
        s.lease_seconds <= MAX_LEASE_SECONDS,
        time_in_range(now),
    ensures
        renew_spec(s, path, owner, now).1 is Ok,
        s.lease_seconds >= 30 ==> renew_spec(s, path, owner, now).1->Ok_0.lease_expires_at == Some(
            (now + s.lease_seconds * 1000) as i64,
        ),
        s.lease_seconds < 30 ==> renew_spec(s, path, owner, now).1->Ok_0.lease_expires_at == Some(
            (now + 30000) as i64,
        ),
        renew_spec(s, path, owner, now).0[path] == renew_spec(s, path, owner, now).1->Ok_0,
{
}

/// Whether the lease of `lock` has run out at `now`.
pub fn lock_expired(lock: &FileLock, now: i64) -> (r: bool)
    ensures
        r == is_expired(lock@, now),
{
    match lock.lease_expires_at {
        Some(e) => e <= now,
        None => false,
    }
}

} // verus!
