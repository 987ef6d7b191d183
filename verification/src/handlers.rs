//! The rules that the HTTP handlers apply before and after they call the
//! services: who may ask, what a request must carry, and what is answered.
use vstd::prelude::*;
use base64::Engine;
use vstd::string::StringSliceAdditionalSpecFns;
use crate::auth::{AuthManager, ApiKey, ApiKeyView, Permission, validated_key, key_allows};
use crate::lock::{LockManager, FileLockView, live_lock};
use crate::versioning::model::{
    AssetDelta, ChangesetKind, SubmitChangesetInput, RollbackPlan, DEFAULT_BRANCH_NAME, clone_deltas, deltas_view,
    opt_str,
};
use crate::requests::{
    SubmitChangesetRequest, HistoryQuery, VerifyResponse, HashRequest, HashResponse, RollbackPlanView,
};
use crate::api::{parse_permissions, parsed_permissions, permissions_to_strings, permission_name};
use crate::clock::now_millis;
use crate::digest::{blake3_hex, hash_bytes};
use crate::text::{str_eq, text_concat};

verus! {

/// A refusal: the HTTP status and the message.
pub type Refusal = (u16, String);

pub open spec fn refusal_view(r: Refusal) -> (u16, Seq<char>) {
    (r.0, r.1@)
}

/// The answer to a request that presents `key` and needs `permission`, at
/// `now`: the key if it is valid and allows the permission, else 401 for an
/// unknown or invalid key and 403 for a key that does not allow it.
pub open spec fn key_check(
    keys: Map<Seq<char>, ApiKeyView>,
    key: Seq<char>,
    permission: Permission,
    now: i64,
) -> Result<ApiKeyView, (u16, Seq<char>)> {
    match validated_key(keys, key, now) {
        None => Err((401, "Invalid API key"@)),
        Some(k) => if key_allows(k, permission) {
            Ok(k)
        } else {
            Err((403, "Permission denied"@))
        },
    }
}

pub open spec fn key_result_view(r: Result<ApiKey, Refusal>) -> Result<ApiKeyView, (u16, Seq<char>)> {
    match r {
        Ok(k) => Ok(k@),
        Err(e) => Err(refusal_view(e)),
    }
}

/// The key of a request that needs `permission`, checked at `now`.
pub fn require_key_at(auth: &AuthManager, key: &str, permission: Permission, now: i64) -> (r: Result<ApiKey, Refusal>)
    ensures
        key_result_view(r) == key_check(auth@.keys, key@, permission, now),
{
    match auth.validate_key_at(key, now) {
        None => Err((401, "Invalid API key".to_owned())),
        Some(k) => if k.has_permission(permission) {
            Ok(k)
        } else {
            Err((403, "Permission denied".to_owned()))
        },
    }
}

/// The key of a request that needs `permission`, checked now.
pub fn require_key(auth: &AuthManager, key: &str, permission: Permission) -> (r: Result<ApiKey, Refusal>)
    ensures
        exists|now: i64| key_result_view(r) == #[trigger] key_check(auth@.keys, key@, permission, now),
{
    let now = now_millis();
    let r = require_key_at(auth, key, permission, now);
    assert(key_result_view(r) == key_check(auth@.keys, key@, permission, now));
    r
}

/// The refusal of a lock request made for an owner other than the caller.
pub const OWNER_MISMATCH: &'static str = "owner_id does not match the authenticated key";

/// The owner a lock request acts for, given the owner of the caller's key:
/// the caller's owner when the request names none or names that owner; a
/// request made for anyone else is refused with 403.
pub fn lock_owner_for(caller_owner: &str, requested: Option<&str>) -> (r: Result<String, Refusal>)
    ensures
        match requested {
            None => r is Ok && r->Ok_0@ == caller_owner@,
            Some(o) => if o@ == caller_owner@ {
                r is Ok && r->Ok_0@ == caller_owner@
            } else {
                r is Err && refusal_view(r->Err_0) == (403u16, OWNER_MISMATCH@)
            },
        },
{
    match requested {
        None => Ok(caller_owner.to_owned()),
        Some(o) => if str_eq(o, caller_owner) {
            Ok(caller_owner.to_owned())
        } else {
            Err((403, OWNER_MISMATCH.to_owned()))
        },
    }
}

/// Refuses, with 403, a caller whose key does not hold the admin permission at `now`.
pub fn require_admin_at(auth: &AuthManager, caller_key: &str, now: i64) -> (r: Result<(), Refusal>)
    ensures
        r is Ok <==> match validated_key(auth@.keys, caller_key@, now) {
            Some(k) => key_allows(k, Permission::Admin),
            None => false,
        },
        match r {
            Err(e) => refusal_view(e) == (403u16, "Admin permission required"@),
            Ok(_) => true,
        },
{
    if auth.has_permission_at(caller_key, Permission::Admin, now) {
        Ok(())
    } else {
        Err((403, "Admin permission required".to_owned()))
    }
}

/// The first asset, in order, whose path another owner holds a live lock on
/// at `now`: its path and that owner.
pub open spec fn lock_conflict(
    locks: Map<Seq<char>, FileLockView>,
    owner_id: Seq<char>,
    paths: Seq<Seq<char>>,
    now: i64,
) -> Option<(Seq<char>, Seq<char>)>
    decreases paths.len(),
{
    if paths.len() == 0 {
        None
    } else {
        match live_lock(locks, paths[0], now) {
            Some(l) => if l.owner_id != owner_id {
                Some((paths[0], l.owner_id))
            } else {
                lock_conflict(locks, owner_id, paths.drop_first(), now)
            },
            None => lock_conflict(locks, owner_id, paths.drop_first(), now),
        }
    }
}

pub open spec fn delta_paths(assets: Seq<AssetDelta>) -> Seq<Seq<char>> {
    assets.map_values(|a: AssetDelta| a.path@)
}

proof fn lemma_conflict_skip(
    locks: Map<Seq<char>, FileLockView>,
    owner_id: Seq<char>,
    paths: Seq<Seq<char>>,
    i: int,
    now: i64,
)
    requires
        0 <= i < paths.len(),
    ensures
        lock_conflict(locks, owner_id, paths.skip(i), now) == match live_lock(locks, paths[i], now) {
            Some(l) => if l.owner_id != owner_id {
                Some((paths[i], l.owner_id))
            } else {
                lock_conflict(locks, owner_id, paths.skip(i + 1), now)
            },
            None => lock_conflict(locks, owner_id, paths.skip(i + 1), now),
        },
{
    assert(paths.skip(i).drop_first() =~= paths.skip(i + 1));
    assert(paths.skip(i)[0] == paths[i]);
}

/// Refuses, with 409, a change by `owner_id` of an asset that another owner
/// locks at `now`; the first such asset is named.
pub fn ensure_lock_access_at(locks: &LockManager, owner_id: &str, assets: &Vec<AssetDelta>, now: i64) -> (r: Result<
    (),
    Refusal,
>)
    requires
        locks.wf(),
    ensures
        match lock_conflict(locks@.locks, owner_id@, delta_paths(assets@), now) {
            None => r is Ok,
            Some((path, holder)) => r is Err && refusal_view(r->Err_0) == (
                409u16,
                "Lock conflict on "@ + path + ". owner="@ + holder,
            ),
        },
{
    let ghost ps = delta_paths(assets@);
    let mut i: usize = 0;
    proof {
        assert(ps.skip(0) =~= ps);
    }
    while i < assets.len()
        invariant
            locks.wf(),
            ps == delta_paths(assets@),
            i <= ps.len(),
            lock_conflict(locks@.locks, owner_id@, ps, now) == lock_conflict(locks@.locks, owner_id@, ps.skip(i as int), now),
        decreases ps.len() - i,
    {
        proof {
            lemma_conflict_skip(locks@.locks, owner_id@, ps, i as int, now);
        }
        match locks.get_lock_at(assets[i].path.as_str(), now) {
            Some(lock) => {
                if !str_eq(lock.owner_id.as_str(), owner_id) {
                    let mut m = "Lock conflict on ".to_owned();
                    m.append(assets[i].path.as_str());
                    m.append(". owner=");
                    m.append(lock.owner_id.as_str());
                    return Err((409, m));
                }
            },
            None => {},
        }
        i = i + 1;
    }
    proof {
        assert(ps.skip(ps.len() as int) =~= Seq::<Seq<char>>::empty());
    }
    Ok(())
}

/// Refuses, with 409, a change by `owner_id` of an asset that another owner
/// locks now.
pub fn ensure_lock_access(locks: &LockManager, owner_id: &str, assets: &Vec<AssetDelta>) -> (r: Result<(), Refusal>)
    requires
        locks.wf(),
    ensures
        exists|now: i64|
            match #[trigger] lock_conflict(locks@.locks, owner_id@, delta_paths(assets@), now) {
                None => r is Ok,
                Some((path, holder)) => r is Err && refusal_view(r->Err_0) == (
                    409u16,
                    "Lock conflict on "@ + path + ". owner="@ + holder,
                ),
            },
{
    let now = now_millis();
    let r = ensure_lock_access_at(locks, owner_id, assets, now);
    assert(match lock_conflict(locks@.locks, owner_id@, delta_paths(assets@), now) {
        None => r is Ok,
        Some((path, holder)) => r is Err && refusal_view(r->Err_0) == (
            409u16,
            "Lock conflict on "@ + path + ". owner="@ + holder,
        ),
    });
    r
}

/// Refuses, with 403, a changeset whose author is not the owner of the key.
pub fn check_author(author: &str, owner_id: &str) -> (r: Result<(), Refusal>)
    ensures
        r is Ok <==> author@ == owner_id@,
        match r {
            Err(e) => refusal_view(e) == (403u16, "author must match API key owner"@),
            Ok(_) => true,
        },
{
    if str_eq(author, owner_id) {
        Ok(())
    } else {
        Err((403, "author must match API key owner".to_owned()))
    }
}

/// The submission that a request describes, of the given kind, on its branch
/// (the default branch when it names none).
pub fn submission_from_request(request: SubmitChangesetRequest, kind: ChangesetKind) -> (r: SubmitChangesetInput)
    ensures
        r.repo_id == request.repo_id,
        r.branch@ == match request.branch {
            Some(b) => b@,
            None => DEFAULT_BRANCH_NAME@,
        },
        r.base_changeset_id == request.base_changeset_id,
        r.kind == kind,
        r.rollback_of == request.rollback_of,
        r.author == request.author,
        r.message == request.message,
        r.assets == request.assets,
{
    SubmitChangesetInput {
        repo_id: request.repo_id,
        branch: match request.branch {
            Some(b) => b,
            None => DEFAULT_BRANCH_NAME.to_owned(),
        },
        base_changeset_id: request.base_changeset_id,
        kind,
        rollback_of: request.rollback_of,
        author: request.author,
        message: request.message,
        assets: request.assets,
    }
}

/// The submission that carries out a rollback plan for `author`: a rollback
/// changeset on the plan's base, with `message` or `rollback: <target>`.
pub fn rollback_submission(plan: &RollbackPlan, author: String, message: Option<String>) -> (r: SubmitChangesetInput)
    ensures
        r.repo_id@ == plan.repo_id@,
        r.branch@ == plan.branch@,
        opt_str(r.base_changeset_id) == Some(plan.base_changeset_id@),
        r.kind == ChangesetKind::Rollback,
        opt_str(r.rollback_of) == Some(plan.target_changeset_id@),
        r.author == author,
        r.message@ == match message {
            Some(m) => m@,
            None => "rollback: "@ + plan.target_changeset_id@,
        },
        deltas_view(r.assets@) == deltas_view(plan.assets@),
{
    let message = match message {
        Some(m) => m,
        None => text_concat("rollback: ", plan.target_changeset_id.as_str()),
    };
    SubmitChangesetInput {
        repo_id: plan.repo_id.clone(),
        branch: plan.branch.clone(),
        base_changeset_id: Some(plan.base_changeset_id.clone()),
        kind: ChangesetKind::Rollback,
        rollback_of: Some(plan.target_changeset_id.clone()),
        author,
        message,
        assets: clone_deltas(&plan.assets),
    }
}

/// What a rollback answers of its plan.
pub fn rollback_plan_view(plan: &RollbackPlan) -> (r: RollbackPlanView)
    ensures
        r.base_changeset_id@ == plan.base_changeset_id@,
        r.target_changeset_id@ == plan.target_changeset_id@,
        r.asset_count == plan.assets@.len(),
{
    RollbackPlanView {
        base_changeset_id: plan.base_changeset_id.clone(),
        target_changeset_id: plan.target_changeset_id.clone(),
        asset_count: plan.assets.len(),
    }
}

/// The number of changesets a history page shows when the query names none.
pub const DEFAULT_HISTORY_LIMIT: usize = 20;

/// The branch, page size and cursor of a history query, with their defaults:
/// the default branch, 20 changesets, from the newest.
pub fn history_params(query: HistoryQuery) -> (r: (String, usize, usize))
    ensures
        r.0@ == match query.branch {
            Some(b) => b@,
            None => DEFAULT_BRANCH_NAME@,
        },
        r.1 == match query.limit {
            Some(l) => l,
            None => DEFAULT_HISTORY_LIMIT,
        },
        r.2 == match query.cursor {
            Some(c) => c,
            None => 0,
        },
{
    let branch = match query.branch {
        Some(b) => b,
        None => DEFAULT_BRANCH_NAME.to_owned(),
    };
    let limit = match query.limit {
        Some(l) => l,
        None => DEFAULT_HISTORY_LIMIT,
    };
    let cursor = match query.cursor {
        Some(c) => c,
        None => 0,
    };
    (branch, limit, cursor)
}

/// The answer to a key check: the owner and the permission names of a
/// valid key, or an empty answer.
pub fn verify_response(found: Option<ApiKey>) -> (r: VerifyResponse)
    ensures
        r.valid == found is Some,
        match found {
            Some(k) => {
                &&& opt_str(r.owner_id) == Some(k.owner_id@)
                &&& r.permissions@.len() == k.permissions@.len()
                &&& forall|i: int|
                    0 <= i < k.permissions@.len() ==> (#[trigger] r.permissions@[i])@ == permission_name(
                        k.permissions@[i],
                    )
            },
            None => r.owner_id is None && r.permissions@.len() == 0,
        },
{
    match found {
        Some(k) => {
            let permissions = permissions_to_strings(&k.permissions);
            VerifyResponse { valid: true, owner_id: Some(k.owner_id), permissions }
        },
        None => VerifyResponse { valid: false, owner_id: None, permissions: Vec::new() },
    }
}

/// The permissions that a key request names, unknown names skipped; refused
/// with 400 when none is left.
pub fn requested_permissions(names: &Vec<String>) -> (r: Result<Vec<Permission>, Refusal>)
    ensures
        match r {
            Ok(ps) => ps@ == parsed_permissions(names@.map_values(|s: String| s@)) && ps@.len() > 0,
            Err(e) => parsed_permissions(names@.map_values(|s: String| s@)).len() == 0 && refusal_view(e) == (
                400u16,
                "At least one valid permission required"@,
            ),
        },
{
    let ps = parse_permissions(names);
    if ps.len() == 0 {
        Err((400, "At least one valid permission required".to_owned()))
    } else {
        Ok(ps)
    }
}

/// The revocation of `key` by the holder of `caller_key` (an admin): a key
/// cannot revoke itself, and an unknown key is answered with 404.
pub fn revoke_as(auth: &mut AuthManager, caller_key: &str, key: &str) -> (r: Result<bool, Refusal>)
    ensures
        caller_key@ == key@ ==> r is Err && refusal_view(r->Err_0) == (400u16, "Cannot revoke your own key"@)
            && final(auth)@ == old(auth)@,
        caller_key@ != key@ ==> {
            &&& old(auth)@.keys.contains_key(key@) ==> r == Ok::<bool, Refusal>(true)
            &&& !old(auth)@.keys.contains_key(key@) ==> r is Err && refusal_view(r->Err_0) == (
                404u16,
                "Key not found"@,
            )
            &&& final(auth)@.keys == if old(auth)@.keys.contains_key(key@) {
                old(auth)@.keys.insert(key@, ApiKeyView { revoked: true, ..old(auth)@.keys[key@] })
            } else {
                old(auth)@.keys
            }
            &&& final(auth)@.dev_master_key == old(auth)@.dev_master_key
        },
{
    if str_eq(caller_key, key) {
        return Err((400, "Cannot revoke your own key".to_owned()));
    }
    if auth.revoke_key(key) {
        Ok(true)
    } else {
        Err((404, "Key not found".to_owned()))
    }
}

/// The number of bytes of a key that the listing shows.
pub const KEY_PREFIX_BYTES: usize = 12;

/// The start of a key as the listing shows it: its first twelve bytes (all
/// of a shorter key), then `...`.
pub fn key_prefix(key: &str) -> (r: String)
    requires
        vstd::utf8::is_char_boundary(
            vstd::utf8::encode_utf8(key@),
            if vstd::utf8::encode_utf8(key@).len() < KEY_PREFIX_BYTES { vstd::utf8::encode_utf8(key@).len() as int } else { KEY_PREFIX_BYTES as int },
        ),
    ensures
        vstd::utf8::encode_utf8(r@) == vstd::utf8::encode_utf8(key@).take(
            if vstd::utf8::encode_utf8(key@).len() < KEY_PREFIX_BYTES { vstd::utf8::encode_utf8(key@).len() as int } else { KEY_PREFIX_BYTES as int },
        ) + vstd::utf8::encode_utf8("..."@),
{
    proof {
        assert(key.spec_bytes() == vstd::utf8::encode_utf8(key@));
        vstd::utf8::encode_utf8_valid_utf8(key@);
    }
    let n = key.as_bytes().len();
    let cut = if n < KEY_PREFIX_BYTES {
        n
    } else {
        KEY_PREFIX_BYTES
    };
    let (head, _) = key.split_at(cut);
    let mut r = head.to_owned();
    r.append("...");
    proof {
        crate::text::lemma_encode_concat(head@, "..."@);
        assert(head.spec_bytes() == vstd::utf8::encode_utf8(head@));
        assert(vstd::utf8::encode_utf8(head@) =~= vstd::utf8::encode_utf8(key@).take(cut as int));
    }
    r
}

/// What standard Base64 decoding gives for `text`: the bytes, or the text of
/// the decoding error.
pub uninterp spec fn base64_standard_decode(text: Seq<u8>) -> Result<Seq<u8>, Seq<char>>;

/// Calls `base64::engine::general_purpose::STANDARD.decode` on the bytes of
/// `text`; an error is rendered with `to_string`. The result, bytes or error
/// text, is a function of `text` alone, named `base64_standard_decode`.
#[verifier::external_body]
fn decode_base64(text: &str) -> (r: Result<Vec<u8>, String>)
    ensures
        match r {
            Ok(v) => base64_standard_decode(vstd::utf8::encode_utf8(text@)) == Ok::<Seq<u8>, Seq<char>>(v@),
            Err(e) => base64_standard_decode(vstd::utf8::encode_utf8(text@)) == Err::<Seq<u8>, Seq<char>>(e@),
        },
{
    match base64::engine::general_purpose::STANDARD.decode(text.as_bytes()) {
        Ok(v) => Ok(v),
        Err(e) => Err(e.to_string()),
    }
}

/// The answer to a request to hash data: the BLAKE3 digest of the decoded
/// bytes, or `Invalid base64: ` and the decoding error.
pub fn hash_request(request: &HashRequest) -> (r: Result<HashResponse, String>)
    ensures
        match base64_standard_decode(vstd::utf8::encode_utf8(request.data@)) {
            Ok(bytes) => r is Ok && r->Ok_0.hash@ == blake3_hex(bytes),
            Err(e) => r is Err && r->Err_0@ == "Invalid base64: "@ + e,
        },
{
    match decode_base64(request.data.as_str()) {
        Ok(bytes) => Ok(HashResponse { hash: hash_bytes(bytes.as_slice()) }),
        Err(e) => Err(text_concat("Invalid base64: ", e.as_str())),
    }
}


/// A valid key with the admin permission passes every permission check.
pub proof fn admin_key_passes_every_check(
    keys: Map<Seq<char>, ApiKeyView>,
    key: Seq<char>,
    permission: Permission,
    now: i64,
)
    requires
        validated_key(keys, key, now) is Some,
        validated_key(keys, key, now)->0.permissions.contains(Permission::Admin),
    ensures
        key_check(keys, key, permission, now) is Ok,
{
}

/// An owner never conflicts with its own locks: when every live lock on the
/// assets is held by the submitter, the submission is not refused.
pub proof fn own_locks_never_conflict(
    locks: Map<Seq<char>, FileLockView>,
    owner_id: Seq<char>,
    paths: Seq<Seq<char>>,
    now: i64,
)
    requires
        forall|i: int|
            0 <= i < paths.len() && #[trigger] live_lock(locks, paths[i], now) is Some ==> live_lock(
                locks,
                paths[i],
                now,
            )->0.owner_id == owner_id,
    ensures
        lock_conflict(locks, owner_id, paths, now) is None,
    decreases paths.len(),
{
    if paths.len() > 0 {
        let rest = paths.drop_first();
        assert forall|i: int|
            0 <= i < rest.len() && #[trigger] live_lock(locks, rest[i], now) is Some implies live_lock(
                locks,
                rest[i],
                now,
            )->0.owner_id == owner_id by {
            assert(rest[i] == paths[i + 1]);
        }
        own_locks_never_conflict(locks, owner_id, rest, now);
        if live_lock(locks, paths[0], now) is Some {
            assert(live_lock(locks, paths[0], now)->0.owner_id == owner_id);
        }
    }
}

} // verus!
