//! API keys and the permissions they carry.
use vstd::prelude::*;
use dashmap::DashMap;
use crate::clock::{now_millis, new_uuid_string, MAX_ABS_TIME_MILLIS, uuid_text, uuid_hyphen_at, is_lower_hex_digit};
use crate::text::{str_eq, text_concat};

verus! {

/// What a key allows.
#[derive(Debug, Clone, Copy, PartialEq, Eq, Structural)]
pub enum Permission {
    /// Lock and unlock files.
    Lock,
    /// Upload files.
    Upload,
    /// Download files.
    Download,
    /// Everything, and the administration of locks and keys.
    Admin,
}

/// The largest number of days for which a generated key can be valid.
pub const MAX_KEY_DAYS: i64 = 100_000_000;

/// The number of milliseconds in a day.
pub const MILLIS_PER_DAY: i64 = 86_400_000;

/// An API key.
#[derive(Debug)]
pub struct ApiKey {
    pub key: String,
    pub owner_id: String,
    pub permissions: Vec<Permission>,
    /// Milliseconds since the Unix epoch.
    pub created_at: i64,
    /// Milliseconds since the Unix epoch; `None` for a key that never expires.
    pub expires_at: Option<i64>,
    pub revoked: bool,
}

pub struct ApiKeyView {
    pub key: Seq<char>,
    pub owner_id: Seq<char>,
    pub permissions: Seq<Permission>,
    pub created_at: i64,
    pub expires_at: Option<i64>,
    pub revoked: bool,
}

impl View for ApiKey {
    type V = ApiKeyView;

    open spec fn view(&self) -> ApiKeyView {
        ApiKeyView {
            key: self.key@,
            owner_id: self.owner_id@,
            permissions: self.permissions@,
            created_at: self.created_at,
            expires_at: self.expires_at,
            revoked: self.revoked,
        }
    }
}

pub fn clone_permissions(v: &Vec<Permission>) -> (r: Vec<Permission>)
    ensures
        r@ == v@,
{
    let mut r: Vec<Permission> = Vec::new();
    let mut i: usize = 0;
    while i < v.len()
        invariant
            i <= v@.len(),
            r@ == v@.subrange(0, i as int),
        decreases v@.len() - i,
    {
        r.push(v[i]);
        assert(r@ =~= v@.subrange(0, i + 1));
        i = i + 1;
    }
    assert(v@.subrange(0, v@.len() as int) =~= v@);
    r
}

impl Clone for ApiKey {
    fn clone(&self) -> (r: Self)
        ensures
            r@ == self@,
    {
        ApiKey {
            key: self.key.clone(),
            owner_id: self.owner_id.clone(),
            permissions: clone_permissions(&self.permissions),
            created_at: self.created_at,
            expires_at: self.expires_at,
            revoked: self.revoked,
        }
    }
}

/// A key is valid while it is neither revoked nor expired.
pub open spec fn key_valid(k: ApiKeyView, now: i64) -> bool {
    !k.revoked && match k.expires_at {
        Some(e) => now < e,
        None => true,
    }
}

/// A key allows what its permissions name; `Admin` allows everything.
pub open spec fn key_allows(k: ApiKeyView, perm: Permission) -> bool {
    k.permissions.contains(Permission::Admin) || k.permissions.contains(perm)
}

pub fn permissions_contain(v: &Vec<Permission>, p: Permission) -> (r: bool)
    ensures
        r == v@.contains(p),
{
    let mut i: usize = 0;
    while i < v.len()
        invariant
            i <= v@.len(),
            forall|j: int| 0 <= j < i ==> v@[j] != p,
        decreases v@.len() - i,
    {
        if v[i] == p {
            return true;
        }
        i = i + 1;
    }
    false
}

impl ApiKey {
    /// Whether the key is valid at `now`.
    pub fn is_valid_at(&self, now: i64) -> (r: bool)
        ensures
            r == key_valid(self@, now),
    {
        if self.revoked {
            return false;
        }
        match self.expires_at {
            Some(e) => now < e,
            None => true,
        }
    }

    /// Whether the key is valid now.
    pub fn is_valid(&self) -> (r: bool)
        ensures
            exists|now: i64| r == key_valid(self@, now),
    {
        let now = now_millis();
        self.is_valid_at(now)
    }

    /// Whether the key allows `perm`.
    pub fn has_permission(&self, perm: Permission) -> (r: bool)
        ensures
            r == key_allows(self@, perm),
    {
        if permissions_contain(&self.permissions, Permission::Admin) {
            return true;
        }
        permissions_contain(&self.permissions, perm)
    }
}

/// The table of keys, by key text.
pub type KeyTable = DashMap<String, ApiKey>;

/// What a `DashMap` of keys holds: each key text with its key.
pub uninterp spec fn key_table(m: KeyTable) -> Map<Seq<char>, ApiKeyView>;

/// Calls `DashMap::new`: the table is empty.
#[verifier::external_body]
fn key_table_new() -> (table: KeyTable)
    ensures
        key_table(table) == (Map::<Seq<char>, ApiKeyView>::empty()),
{
    DashMap::new()
}

/// Calls `DashMap::get` and clones the value: the key stored under `key`, if any.
#[verifier::external_body]
fn key_table_get(m: &KeyTable, key: &str) -> (r: Option<ApiKey>)
    ensures
        r is Some <==> key_table(*m).contains_key(key@),
        r is Some ==> key_table(*m)[key@] == r->0@,
{
    match m.get(key) {
        Some(entry) => Some(entry.value().clone()),
        None => None,
    }
}

/// Calls `DashMap::insert`: `value` is stored under `key`, in place of what was there.
#[verifier::external_body]
fn key_table_insert(m: &mut KeyTable, key: String, value: ApiKey)
    ensures
        key_table(*final(m)) == key_table(*old(m)).insert(key@, value@),
{
    m.insert(key, value);
}

/// Calls `DashMap::iter` and clones each entry: every key text with the key
/// stored under it, once each, in an order that the table's hashing decides.
#[verifier::external_body]
fn key_table_entries(m: &KeyTable) -> (r: Vec<(String, ApiKey)>)
    ensures
        forall|i: int, j: int|
            0 <= i < r@.len() && 0 <= j < r@.len() && r@[i].0@ == r@[j].0@ ==> i == j,
        forall|i: int|
            0 <= i < r@.len() ==> key_table(*m).contains_key(#[trigger] r@[i].0@)
                && key_table(*m)[r@[i].0@] == r@[i].1@,
        forall|k: Seq<char>|
            #[trigger] key_table(*m).contains_key(k) ==> exists|i: int|
                0 <= i < r@.len() && r@[i].0@ == k,
{
    m.iter().map(|entry| (entry.key().clone(), entry.value().clone())).collect()
}

/// The state of the key store.
pub struct AuthState {
    pub keys: Map<Seq<char>, ApiKeyView>,
    pub dev_master_key: Option<Seq<char>>,
}

/// The key `key` if it is known and valid at `now`.
pub open spec fn validated_key(keys: Map<Seq<char>, ApiKeyView>, key: Seq<char>, now: i64) -> Option<
    ApiKeyView,
> {
    if keys.contains_key(key) && key_valid(keys[key], now) {
        Some(keys[key])
    } else {
        None
    }
}

/// The text of a generated key: `ht_` and the random identifier without its hyphens.
pub open spec fn generated_key_text(id: Seq<char>) -> Seq<char> {
    "ht_"@ + without_hyphens(id)
}

/// The characters of `s` other than hyphens, in order.
pub open spec fn without_hyphens(s: Seq<char>) -> Seq<char>
    decreases s.len(),
{
    if s.len() == 0 {
        s
    } else {
        let r = without_hyphens(s.drop_last());
        if s.last() == '-' {
            r
        } else {
            r.push(s.last())
        }
    }
}

/// The shape of a generated key: `ht_` and then 32 lower-case hexadecimal digits.
pub open spec fn generated_key_shape(k: Seq<char>) -> bool {
    &&& k.len() == 35
    &&& k.subrange(0, 3) == "ht_"@
    &&& forall|i: int| 3 <= i < 35 ==> is_lower_hex_digit(#[trigger] k[i])
}

/// How many hyphens a hyphenated UUID has before position `k`.
spec fn uuid_hyphens_before(k: int) -> int {
    (if k > 8 { 1int } else { 0int }) + (if k > 13 { 1int } else { 0int }) + (if k > 18 { 1int } else { 0int })
        + (if k > 23 { 1int } else { 0int })
}

proof fn lemma_uuid_without_hyphens(s: Seq<char>, k: int)
    requires
        uuid_text(s),
        0 <= k <= 36,
    ensures
        without_hyphens(s.subrange(0, k)).len() == k - uuid_hyphens_before(k),
        forall|j: int|
            0 <= j < without_hyphens(s.subrange(0, k)).len() ==> is_lower_hex_digit(
                #[trigger] without_hyphens(s.subrange(0, k))[j],
            ),
    decreases k,
{
    if k > 0 {
        lemma_uuid_without_hyphens(s, k - 1);
        let sub = s.subrange(0, k);
        assert(sub.drop_last() =~= s.subrange(0, k - 1));
        assert(sub.last() == s[k - 1]);
        if uuid_hyphen_at(k - 1) {
            assert(s[k - 1] == '-');
        } else {
            assert(is_lower_hex_digit(s[k - 1]));
        }
    } else {
        assert(s.subrange(0, 0) =~= Seq::<char>::empty());
    }
}

/// A key generated from a UUID's text has the shape of a generated key.
pub proof fn generated_key_has_shape(id: Seq<char>)
    requires
        uuid_text(id),
    ensures
        generated_key_shape(generated_key_text(id)),
{
    lemma_uuid_without_hyphens(id, 36);
    assert(id.subrange(0, 36) =~= id);
    reveal_strlit("ht_");
    let k = generated_key_text(id);
    assert(k.subrange(0, 3) =~= "ht_"@);
    assert forall|i: int| 3 <= i < 35 implies is_lower_hex_digit(#[trigger] k[i]) by {
        assert(k[i] == without_hyphens(id)[i - 3]);
    }
}

/// The key generated from the random identifier `id` at `now`.
pub open spec fn generated_key_view(
    id: Seq<char>,
    owner_id: Seq<char>,
    permissions: Seq<Permission>,
    now: i64,
    expires_in_days: Option<i64>,
) -> ApiKeyView {
    ApiKeyView {
        key: generated_key_text(id),
        owner_id,
        permissions,
        created_at: now,
        expires_at: match expires_in_days {
            Some(d) => Some((now + d * MILLIS_PER_DAY) as i64),
            None => None,
        },
        revoked: false,
    }
}

/// The key stores of the service.
pub struct AuthManager {
    keys: KeyTable,
    dev_master_key: Option<String>,
}

impl View for AuthManager {
    type V = AuthState;

    closed spec fn view(&self) -> AuthState {
        AuthState {
            keys: key_table(self.keys),
            dev_master_key: match self.dev_master_key {
                Some(k) => Some(k@),
                None => None,
            },
        }
    }
}

/// `s` without its hyphens.
pub fn remove_hyphens(s: &str) -> (r: String)
    ensures
        r@ == without_hyphens(s@),
{
    let n = s.unicode_len();
    let mut r = "".to_owned();
    let mut i: usize = 0;
    proof {
        reveal_strlit("");
        assert(without_hyphens(s@.subrange(0, 0)) =~= Seq::<char>::empty());
    }
    while i < n
        invariant
            n == s@.len(),
            i <= n,
            r@ == without_hyphens(s@.subrange(0, i as int)),
        decreases n - i,
    {
        let c = s.get_char(i);
        let piece = s.substring_char(i, i + 1);
        proof {
            assert(s@.subrange(0, i + 1).drop_last() =~= s@.subrange(0, i as int));
            assert(s@.subrange(0, i + 1).last() == c);
            assert(piece@ =~= seq![c]);
        }
        if c != '-' {
            r.append(piece);
        }
        i = i + 1;
    }
    assert(s@.subrange(0, n as int) =~= s@);
    r
}

impl AuthManager {
    /// Every key is stored under its own text.
    pub open spec fn wf(&self) -> bool {
        forall|p: Seq<char>| #[trigger] self@.keys.contains_key(p) ==> self@.keys[p].key == p
    }

    pub fn new() -> (r: AuthManager)
        ensures
            r.wf(),
            r@.keys == Map::<Seq<char>, ApiKeyView>::empty(),
            r@.dev_master_key is None,
    {
        AuthManager { keys: key_table_new(), dev_master_key: None }
    }

    /// A key store that holds the development master key, valid forever with every permission.
    pub fn with_dev_key_at(master_key: String, now: i64) -> (r: AuthManager)
        ensures
            r.wf(),
            r@.dev_master_key == Some(master_key@),
            r@.keys.dom() == set![master_key@],
            r@.keys[master_key@] == (ApiKeyView {
                key: master_key@,
                owner_id: "dev-admin"@,
                permissions: seq![
                    Permission::Lock,
                    Permission::Upload,
                    Permission::Download,
                    Permission::Admin,
                ],
                created_at: now,
                expires_at: None,
                revoked: false,
            }),
    {
        proof {
            reveal_strlit("dev-admin");
        }
        let mut manager = AuthManager { keys: key_table_new(), dev_master_key: Some(master_key.clone()) };
        let mut permissions: Vec<Permission> = Vec::new();
        permissions.push(Permission::Lock);
        permissions.push(Permission::Upload);
        permissions.push(Permission::Download);
        permissions.push(Permission::Admin);
        let dev = ApiKey {
            key: master_key.clone(),
            owner_id: "dev-admin".to_owned(),
            permissions,
            created_at: now,
            expires_at: None,
            revoked: false,
        };
        proof {
            assert(dev.permissions@ =~= seq![
                Permission::Lock,
                Permission::Upload,
                Permission::Download,
                Permission::Admin,
            ]);
        }
        key_table_insert(&mut manager.keys, master_key, dev);
        proof {
            assert(manager@.keys.dom() =~= set![master_key@]);
        }
        manager
    }

    /// A key store that holds the development master key.
    pub fn with_dev_key(master_key: String) -> (r: AuthManager)
        ensures
            r.wf(),
            r@.dev_master_key == Some(master_key@),
            r@.keys.dom() == set![master_key@],
            exists|now: i64|
                r@.keys[master_key@] == (ApiKeyView {
                    key: master_key@,
                    owner_id: "dev-admin"@,
                    permissions: seq![
                        Permission::Lock,
                        Permission::Upload,
                        Permission::Download,
                        Permission::Admin,
                    ],
                    created_at: now,
                    expires_at: None,
                    revoked: false,
                }),
    {
        let now = now_millis();
        AuthManager::with_dev_key_at(master_key, now)
    }

    /// The key `key`, if it is known and valid at `now`.
    pub fn validate_key_at(&self, key: &str, now: i64) -> (r: Option<ApiKey>)
        ensures
            match r {
                Some(k) => validated_key(self@.keys, key@, now) == Some(k@),
                None => validated_key(self@.keys, key@, now) is None,
            },
    {
        match key_table_get(&self.keys, key) {
            Some(k) => {
                if k.is_valid_at(now) {
                    Some(k)
                } else {
                    None
                }
            },
            None => None,
        }
    }

    /// The key `key`, if it is known and valid now.
    pub fn validate_key(&self, key: &str) -> (r: Option<ApiKey>)
        ensures
            exists|now: i64|
                match r {
                    Some(k) => validated_key(self@.keys, key@, now) == Some(k@),
                    None => validated_key(self@.keys, key@, now) is None,
                },
    {
        let now = now_millis();
        self.validate_key_at(key, now)
    }

    /// Whether `key` is valid at `now` and allows `perm`.
    pub fn has_permission_at(&self, key: &str, perm: Permission, now: i64) -> (r: bool)
        ensures
            r == match validated_key(self@.keys, key@, now) {
                Some(k) => key_allows(k, perm),
                None => false,
            },
    {
        match self.validate_key_at(key, now) {
            Some(k) => k.has_permission(perm),
            None => false,
        }
    }

    /// Whether `key` is valid now and allows `perm`.
    pub fn has_permission(&self, key: &str, perm: Permission) -> (r: bool)
        ensures
            exists|now: i64|
                r == match #[trigger] validated_key(self@.keys, key@, now) {
                    Some(k) => key_allows(k, perm),
                    None => false,
                },
    {
        let now = now_millis();
        self.has_permission_at(key, perm, now)
    }

    /// Stores a new key for `owner_id`, made at `now` from the random identifier
    /// `id`, valid for `expires_in_days` days or forever.
    pub fn generate_key_with(
        &mut self,
        owner_id: &str,
        permissions: Vec<Permission>,
        expires_in_days: Option<i64>,
        id: &str,
        now: i64,
    ) -> (r: ApiKey)
        requires
            -MAX_ABS_TIME_MILLIS < now < MAX_ABS_TIME_MILLIS,
            expires_in_days is Some ==> -MAX_KEY_DAYS <= expires_in_days->0 <= MAX_KEY_DAYS,
        ensures
            r@ == generated_key_view(id@, owner_id@, permissions@, now, expires_in_days),
            final(self)@.keys == old(self)@.keys.insert(r@.key, r@),
            final(self)@.dev_master_key == old(self)@.dev_master_key,
            old(self).wf() ==> final(self).wf(),
    {
        proof {
            reveal_strlit("ht_");
        }
        let key = text_concat("ht_", remove_hyphens(id).as_str());
        let expires_at = match expires_in_days {
            Some(days) => Some(now + days * MILLIS_PER_DAY),
            None => None,
        };
        let api_key = ApiKey {
            key: key.clone(),
            owner_id: owner_id.to_owned(),
            permissions,
            created_at: now,
            expires_at,
            revoked: false,
        };
        let result = api_key.clone();
        key_table_insert(&mut self.keys, key, api_key);
        result
    }

    /// Stores a new random key for `owner_id`, valid for `expires_in_days` days or forever.
    pub fn generate_key(&mut self, owner_id: &str, permissions: Vec<Permission>, expires_in_days: Option<i64>) -> (r: ApiKey)
        requires
            expires_in_days is Some ==> -MAX_KEY_DAYS <= expires_in_days->0 <= MAX_KEY_DAYS,
        ensures
            exists|id: Seq<char>, now: i64|
                uuid_text(id) && r@ == #[trigger] generated_key_view(id, owner_id@, permissions@, now, expires_in_days),
            generated_key_shape(r@.key),
            final(self)@.keys == old(self)@.keys.insert(r@.key, r@),
            final(self)@.dev_master_key == old(self)@.dev_master_key,
            old(self).wf() ==> final(self).wf(),
    {
        let id = new_uuid_string();
        let now = now_millis();
        proof {
            generated_key_has_shape(id@);
        }
        self.generate_key_with(owner_id, permissions, expires_in_days, id.as_str(), now)
    }

    /// Marks `key` revoked; says whether it was known.
    pub fn revoke_key(&mut self, key: &str) -> (r: bool)
        ensures
            r == old(self)@.keys.contains_key(key@),
            final(self)@.keys == if r {
                old(self)@.keys.insert(key@, ApiKeyView { revoked: true, ..old(self)@.keys[key@] })
            } else {
                old(self)@.keys
            },
            final(self)@.dev_master_key == old(self)@.dev_master_key,
            old(self).wf() ==> final(self).wf(),
    {
        match key_table_get(&self.keys, key) {
            Some(k) => {
                let revoked = ApiKey {
                    key: k.key,
                    owner_id: k.owner_id,
                    permissions: k.permissions,
                    created_at: k.created_at,
                    expires_at: k.expires_at,
                    revoked: true,
                };
                key_table_insert(&mut self.keys, key.to_owned(), revoked);
                true
            },
            None => false,
        }
    }

    /// Every stored key, once each, in no particular order.
    pub fn list_keys(&self) -> (r: Vec<ApiKey>)
        requires
            self.wf(),
        ensures
            forall|i: int, j: int|
                0 <= i < r@.len() && 0 <= j < r@.len() && r@[i]@.key == r@[j]@.key ==> i == j,
            forall|i: int|
                0 <= i < r@.len() ==> self@.keys.contains_key(#[trigger] r@[i]@.key)
                    && self@.keys[r@[i]@.key] == r@[i]@,
            forall|k: Seq<char>|
                #[trigger] self@.keys.contains_key(k) ==> exists|i: int| 0 <= i < r@.len() && r@[i]@.key == k,
    {
        let entries = key_table_entries(&self.keys);
        let mut r: Vec<ApiKey> = Vec::new();
        let mut i: usize = 0;
        while i < entries.len()
            invariant
                self.wf(),
                i <= entries@.len(),
                r@.len() == i,
                forall|a: int, b: int|
                    0 <= a < entries@.len() && 0 <= b < entries@.len() && entries@[a].0@ == entries@[b].0@ ==> a == b,
                forall|a: int|
                    0 <= a < entries@.len() ==> self@.keys.contains_key(#[trigger] entries@[a].0@)
                        && self@.keys[entries@[a].0@] == entries@[a].1@,
                forall|a: int| 0 <= a < i ==> #[trigger] r@[a]@ == entries@[a].1@,
            decreases entries@.len() - i,
        {
            r.push(entries[i].1.clone());
            i = i + 1;
        }
        proof {
            assert forall|a: int| 0 <= a < r@.len() implies #[trigger] r@[a]@.key == entries@[a].0@ by {
                assert(self@.keys.contains_key(entries@[a].0@));
            }
            assert forall|k: Seq<char>| #[trigger] self@.keys.contains_key(k) implies exists|a: int|
                0 <= a < r@.len() && r@[a]@.key == k by {
                let a = choose|a: int| 0 <= a < entries@.len() && entries@[a].0@ == k;
                assert(r@[a]@.key == entries@[a].0@);
            }
        }
        r
    }

    /// Whether `key` is the development master key.
    pub fn is_dev_master_key(&self, key: &str) -> (r: bool)
        ensures
            r == (self@.dev_master_key == Some(key@)),
    {
        match &self.dev_master_key {
            Some(k) => str_eq(k.as_str(), key),
            None => false,
        }
    }
}

/// A revoked key is refused at any time afterwards.
pub proof fn revoked_key_is_refused(s: AuthState, key: Seq<char>, now: i64)
    requires
        s.keys.contains_key(key),
    ensures
        validated_key(
            s.keys.insert(key, ApiKeyView { revoked: true, ..s.keys[key] }),
            key,
            now,
        ) is None,
{
}

/// A key with the `Admin` permission allows everything.
pub proof fn admin_allows_everything(k: ApiKeyView, perm: Permission)
    requires
        k.permissions.contains(Permission::Admin),
    ensures
        key_allows(k, perm),
{
}

/// A freshly generated key is valid when it is made, if it does not expire at
/// once, and allows exactly what it was given (or everything, with `Admin`).
pub proof fn generated_key_is_valid(s: AuthState, k: ApiKeyView, now: i64, perm: Permission)
    requires
        !k.revoked,
        k.expires_at is None || now < k.expires_at->0,
    ensures
        validated_key(s.keys.insert(k.key, k), k.key, now) == Some(k),
        key_allows(k, perm) <==> (k.permissions.contains(Permission::Admin) || k.permissions.contains(perm)),
{
}

/// An unknown key is refused and allows nothing.
pub proof fn unknown_key_is_refused(s: AuthState, key: Seq<char>, now: i64)
    requires
        !s.keys.contains_key(key),
    ensures
        validated_key(s.keys, key, now) is None,
{
}

} // verus!
