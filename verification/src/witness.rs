//! Witnesses that countersign trust checkpoints: their configuration, the
//! receipts they sign, the quorum over those receipts and how the witnesses
//! spread over scopes and environments.
use vstd::prelude::*;
use crate::text::{
    chars_of, string_of, find_char, first_index_of, trim_text, trimmed, parse_usize, parsed_usize,
    str_eq, text_concat, i64_to_text, signed_decimal,
};
use crate::order::{strictly_sorted, texts, distinct_sorted, sort_by_key, sorted_by_key, lemma_map_keeps_multiset};
use crate::digest::{blake3_hex, hash_text};
use crate::clock::now_millis;

verus! {

/// The witnesses used when none is configured.
pub const DEFAULT_WITNESS_KEYS: &'static str =
    "witness-a:dev-secret-a,witness-b:dev-secret-b,witness-c:dev-secret-c";

/// The scope and the environment of a witness that names none.
pub const DEFAULT_WITNESS_PLACE: &'static str = "local";

/// The deployment scope reported when none is configured.
pub const DEFAULT_DEPLOYMENT_SCOPE: &'static str = "single-env";

/// The number of receipts that makes a quorum when none is configured.
pub const DEFAULT_QUORUM: usize = 2;

/// A configured witness: its id, the secret it signs with, and where it runs.
#[derive(Debug)]
pub struct WitnessKey {
    pub id: String,
    pub secret: String,
    pub scope: String,
    pub environment: String,
}

pub struct WitnessKeyView {
    pub id: Seq<char>,
    pub secret: Seq<char>,
    pub scope: Seq<char>,
    pub environment: Seq<char>,
}

impl View for WitnessKey {
    type V = WitnessKeyView;

    open spec fn view(&self) -> WitnessKeyView {
        WitnessKeyView {
            id: self.id@,
            secret: self.secret@,
            scope: self.scope@,
            environment: self.environment@,
        }
    }
}

pub open spec fn keys_view(s: Seq<WitnessKey>) -> Seq<WitnessKeyView> {
    s.map_values(|w: WitnessKey| w@)
}

pub open spec fn opt_key_view(o: Option<WitnessKey>) -> Option<WitnessKeyView> {
    match o {
        Some(w) => Some(w@),
        None => None,
    }
}

/// The pieces of `s` between the occurrences of `sep`, as `str::split` gives them.
pub open spec fn split_on(s: Seq<char>, sep: char) -> Seq<Seq<char>>
    decreases s.len(),
{
    if s.len() == 0 {
        seq![Seq::empty()]
    } else {
        let init = split_on(s.drop_last(), sep);
        if s.last() == sep {
            init.push(Seq::empty())
        } else {
            init.update(init.len() - 1, init.last().push(s.last()))
        }
    }
}

/// `s` cut at its first `sep`: what comes before it, and what comes after it
/// if `sep` occurs at all.
pub open spec fn cut_at(s: Seq<char>, sep: char) -> (Seq<char>, Option<Seq<char>>) {
    match first_index_of(s, sep) {
        Some(i) => (s.take(i), Some(s.skip(i + 1))),
        None => (s, None),
    }
}

/// `t`, or `d` when `t` is empty.
pub open spec fn or_default(t: Seq<char>, d: Seq<char>) -> Seq<char> {
    if t.len() == 0 {
        d
    } else {
        t
    }
}

/// The witness that an item `id:secret[:scope[:environment]]` of the
/// configuration describes, if it names both an id and a secret. The fields
/// are trimmed; a missing or blank scope or environment takes the default,
/// and the environment is all that follows the third `:`.
pub open spec fn witness_entry(item: Seq<char>, default_scope: Seq<char>, default_environment: Seq<char>) -> Option<
    WitnessKeyView,
> {
    let (p0, r0) = cut_at(item, ':');
    match r0 {
        None => None,
        Some(r0) => {
            let (p1, r1) = cut_at(r0, ':');
            let id = trimmed(p0);
            let secret = trimmed(p1);
            let scope = match r1 {
                None => default_scope,
                Some(r1) => or_default(trimmed(cut_at(r1, ':').0), default_scope),
            };
            let environment = match r1 {
                None => default_environment,
                Some(r1) => match cut_at(r1, ':').1 {
                    None => default_environment,
                    Some(p3) => or_default(trimmed(p3), default_environment),
                },
            };
            if id.len() == 0 || secret.len() == 0 {
                None
            } else {
                Some(WitnessKeyView { id, secret, scope, environment })
            }
        },
    }
}

/// The witnesses that the items describe, in order.
pub open spec fn configured_witnesses(
    items: Seq<Seq<char>>,
    default_scope: Seq<char>,
    default_environment: Seq<char>,
) -> Seq<WitnessKeyView>
    decreases items.len(),
{
    if items.len() == 0 {
        Seq::empty()
    } else {
        let rest = configured_witnesses(items.drop_last(), default_scope, default_environment);
        match witness_entry(items.last(), default_scope, default_environment) {
            Some(w) => rest.push(w),
            None => rest,
        }
    }
}

/// The three development witnesses, in the given scope and environment.
pub open spec fn default_witnesses(scope: Seq<char>, environment: Seq<char>) -> Seq<WitnessKeyView> {
    seq![
        WitnessKeyView { id: "witness-a"@, secret: "dev-secret-a"@, scope, environment },
        WitnessKeyView { id: "witness-b"@, secret: "dev-secret-b"@, scope, environment },
        WitnessKeyView { id: "witness-c"@, secret: "dev-secret-c"@, scope, environment },
    ]
}

/// The witnesses of the configuration `keys` (a comma-separated list of
/// items), or those of the default configuration if it describes none.
pub open spec fn witness_list(keys: Seq<char>, default_scope: Seq<char>, default_environment: Seq<char>) -> Seq<
    WitnessKeyView,
> {
    let configured = configured_witnesses(split_on(keys, ','), default_scope, default_environment);
    if configured.len() == 0 {
        default_witnesses(default_scope, default_environment)
    } else {
        configured
    }
}

/// `q` brought into `1..=n`, as `usize::clamp(q, 1, n)` does.
pub open spec fn clamp_quorum(q: nat, n: nat) -> nat {
    if q < 1 {
        1
    } else if q > n {
        n
    } else {
        q
    }
}

pub open spec fn text_or(o: Option<String>, d: Seq<char>) -> Seq<char> {
    match o {
        Some(s) => s@,
        None => d,
    }
}

/// The quorum that the setting `q` asks for: its number, or the default when
/// it is absent or not a number.
pub open spec fn quorum_setting(q: Option<String>) -> nat {
    match q {
        Some(s) => match parsed_usize(s@) {
            Some(n) => n as nat,
            None => DEFAULT_QUORUM as nat,
        },
        None => DEFAULT_QUORUM as nat,
    }
}

proof fn lemma_split_nonempty(s: Seq<char>, sep: char)
    ensures
        split_on(s, sep).len() >= 1,
    decreases s.len(),
{
    if s.len() > 0 {
        lemma_split_nonempty(s.drop_last(), sep);
    }
}

/// The pieces of `s` between the occurrences of `sep`.
pub fn split_text(s: &str, sep: char) -> (r: Vec<String>)
    ensures
        texts(r@) == split_on(s@, sep),
{
    let cs = chars_of(s);
    let mut done: Vec<String> = Vec::new();
    let mut start: usize = 0;
    let mut i: usize = 0;
    proof {
        assert(cs@.take(0) =~= Seq::<char>::empty());
        assert(texts(done@).push(cs@.subrange(0, 0)) =~= seq![Seq::<char>::empty()]);
    }
    while i < cs.len()
        invariant
            cs@ == s@,
            start <= i <= cs@.len(),
            texts(done@).push(cs@.subrange(start as int, i as int)) == split_on(cs@.take(i as int), sep),
        decreases cs@.len() - i,
    {
        let ghost pre = cs@.take(i as int);
        proof {
            assert(cs@.take(i + 1).drop_last() =~= pre);
            assert(cs@.take(i + 1).last() == cs@[i as int]);
            lemma_split_nonempty(pre, sep);
        }
        if cs[i] == sep {
            let piece = string_of(&cs, start, i);
            let ghost before = done@;
            done.push(piece);
            proof {
                assert(texts(done@) =~= texts(before).push(cs@.subrange(start as int, i as int)));
            }
            start = i + 1;
            proof {
                assert(cs@.subrange(start as int, i + 1) =~= Seq::<char>::empty());
                assert(texts(done@).push(cs@.subrange(start as int, i + 1)) =~= split_on(pre, sep).push(Seq::empty()));
            }
        } else {
            proof {
                let init = split_on(pre, sep);
                assert(cs@.subrange(start as int, i + 1) =~= cs@.subrange(start as int, i as int).push(cs@[i as int]));
                assert(texts(done@).push(cs@.subrange(start as int, i + 1)) =~= init.update(
                    init.len() - 1,
                    init.last().push(cs@[i as int]),
                ));
            }
        }
        i = i + 1;
    }
    let last = string_of(&cs, start, cs.len());
    done.push(last);
    proof {
        assert(cs@.take(cs@.len() as int) =~= s@);
        assert(texts(done@) =~= split_on(s@, sep));
    }
    done
}

/// `s` cut at its first `sep`.
pub fn cut_text(s: &str, sep: char) -> (r: (String, Option<String>))
    ensures
        (r.0@, crate::versioning::model::opt_str(r.1)) == cut_at(s@, sep),
{
    match find_char(s, sep) {
        Some(i) => {
            let cs = chars_of(s);
            let n = cs.len();
            assert(i < n);
            let a = string_of(&cs, 0, i);
            let b = string_of(&cs, i + 1, cs.len());
            assert(a@ =~= s@.take(i as int));
            assert(b@ =~= s@.skip(i + 1));
            (a, Some(b))
        },
        None => (s.to_owned(), None),
    }
}

fn trimmed_or(t: &str, d: &str) -> (r: String)
    ensures
        r@ == or_default(trimmed(t@), d@),
{
    let x = trim_text(t);
    if x.as_str().is_empty() {
        d.to_owned()
    } else {
        x
    }
}

/// The witness that one item of the configuration describes, if any.
pub fn parse_witness_entry(item: &str, default_scope: &str, default_environment: &str) -> (r: Option<WitnessKey>)
    ensures
        opt_key_view(r) == witness_entry(item@, default_scope@, default_environment@),
{
    let (p0, r0) = cut_text(item, ':');
    let r0 = match r0 {
        None => {
            return None;
        },
        Some(x) => x,
    };
    let (p1, r1) = cut_text(r0.as_str(), ':');
    let id = trim_text(p0.as_str());
    let secret = trim_text(p1.as_str());
    let (scope, environment) = match r1 {
        None => (default_scope.to_owned(), default_environment.to_owned()),
        Some(r1) => {
            let (p2, r2) = cut_text(r1.as_str(), ':');
            let scope = trimmed_or(p2.as_str(), default_scope);
            let environment = match r2 {
                None => default_environment.to_owned(),
                Some(p3) => trimmed_or(p3.as_str(), default_environment),
            };
            (scope, environment)
        },
    };
    if id.as_str().is_empty() || secret.as_str().is_empty() {
        return None;
    }
    Some(WitnessKey { id, secret, scope, environment })
}

/// The witnesses that a configuration describes, in order.
pub fn parse_witness_keys(keys: &str, default_scope: &str, default_environment: &str) -> (r: Vec<WitnessKey>)
    ensures
        keys_view(r@) == configured_witnesses(split_on(keys@, ','), default_scope@, default_environment@),
{
    let items = split_text(keys, ',');
    let ghost its = texts(items@);
    let mut r: Vec<WitnessKey> = Vec::new();
    let mut i: usize = 0;
    proof {
        assert(its.take(0) =~= Seq::<Seq<char>>::empty());
        assert(keys_view(r@) =~= Seq::<WitnessKeyView>::empty());
    }
    while i < items.len()
        invariant
            its == texts(items@),
            i <= items@.len(),
            keys_view(r@) == configured_witnesses(its.take(i as int), default_scope@, default_environment@),
        decreases items@.len() - i,
    {
        proof {
            assert(its.take(i + 1).drop_last() =~= its.take(i as int));
            assert(its.take(i + 1).last() == items@[i as int]@);
        }
        match parse_witness_entry(items[i].as_str(), default_scope, default_environment) {
            Some(w) => {
                let ghost before = r@;
                r.push(w);
                proof {
                    assert(keys_view(r@) =~= keys_view(before).push(w@));
                }
            },
            None => {},
        }
        i = i + 1;
    }
    proof {
        assert(its.take(items@.len() as int) =~= its);
    }
    r
}

/// The witness service: the configured witnesses, the quorum of receipts
/// that a checkpoint needs, and the scope of the deployment.
pub struct WitnessService {
    witnesses: Vec<WitnessKey>,
    quorum: usize,
    scope: String,
}

pub struct WitnessServiceView {
    pub witnesses: Seq<WitnessKeyView>,
    pub quorum: nat,
    pub scope: Seq<char>,
}

impl View for WitnessService {
    type V = WitnessServiceView;

    closed spec fn view(&self) -> WitnessServiceView {
        WitnessServiceView { witnesses: keys_view(self.witnesses@), quorum: self.quorum as nat, scope: self.scope@ }
    }
}

impl WitnessService {
    /// At least one witness, and a quorum between one and their number.
    pub closed spec fn wf(&self) -> bool {
        &&& self.witnesses@.len() >= 1
        &&& 1 <= self.quorum <= self.witnesses@.len()
    }

    /// The service that the environment describes, given the values of
    /// `WITNESS_KEYS`, `WITNESS_DEFAULT_SCOPE`, `WITNESS_DEFAULT_ENVIRONMENT`,
    /// `WITNESS_QUORUM` and `WITNESS_SCOPE` (`None` for one that is not set):
    /// `keys` lists the witnesses as
    /// `id:secret[:scope[:environment]]` items separated by commas,
    /// `default_scope` and `default_environment` fill what an item leaves
    /// out, `quorum` is the number of receipts wanted and `scope` names the
    /// deployment. A setting that is absent takes its default.
    pub fn from_env(
        keys: Option<String>,
        default_scope: Option<String>,
        default_environment: Option<String>,
        quorum: Option<String>,
        scope: Option<String>,
    ) -> (r: WitnessService)
        ensures
            r.wf(),
            r@.witnesses == witness_list(
                text_or(keys, DEFAULT_WITNESS_KEYS@),
                text_or(default_scope, DEFAULT_WITNESS_PLACE@),
                text_or(default_environment, DEFAULT_WITNESS_PLACE@),
            ),
            r@.quorum == clamp_quorum(quorum_setting(quorum), r@.witnesses.len()),
            r@.scope == text_or(scope, DEFAULT_DEPLOYMENT_SCOPE@),
    {
        let keys = match keys {
            Some(k) => k,
            None => DEFAULT_WITNESS_KEYS.to_owned(),
        };
        let default_scope = match default_scope {
            Some(k) => k,
            None => DEFAULT_WITNESS_PLACE.to_owned(),
        };
        let default_environment = match default_environment {
            Some(k) => k,
            None => DEFAULT_WITNESS_PLACE.to_owned(),
        };
        let mut witnesses = parse_witness_keys(keys.as_str(), default_scope.as_str(), default_environment.as_str());
        if witnesses.len() == 0 {
            witnesses = Vec::new();
            witnesses.push(WitnessKey {
                id: "witness-a".to_owned(),
                secret: "dev-secret-a".to_owned(),
                scope: default_scope.clone(),
                environment: default_environment.clone(),
            });
            witnesses.push(WitnessKey {
                id: "witness-b".to_owned(),
                secret: "dev-secret-b".to_owned(),
                scope: default_scope.clone(),
                environment: default_environment.clone(),
            });
            witnesses.push(WitnessKey {
                id: "witness-c".to_owned(),
                secret: "dev-secret-c".to_owned(),
                scope: default_scope.clone(),
                environment: default_environment.clone(),
            });
            proof {
                assert(keys_view(witnesses@) =~= default_witnesses(default_scope@, default_environment@));
            }
        }
        let wanted: usize = match &quorum {
            Some(q) => match parse_usize(q.as_str()) {
                Some(n) => n,
                None => DEFAULT_QUORUM,
            },
            None => DEFAULT_QUORUM,
        };
        let n = witnesses.len();
        let quorum = if wanted < 1 {
            1
        } else if wanted > n {
            n
        } else {
            wanted
        };
        let scope = match scope {
            Some(s) => s,
            None => DEFAULT_DEPLOYMENT_SCOPE.to_owned(),
        };
        WitnessService { witnesses, quorum, scope }
    }

    /// The quorum of receipts that a checkpoint needs.
    pub fn quorum(&self) -> (r: usize)
        ensures
            r == self@.quorum,
    {
        self.quorum
    }
}


/// A trust checkpoint: the head and the size of the event log, and the state
/// root, at one moment (milliseconds since the Unix epoch).
#[derive(Debug)]
pub struct TrustCheckpoint {
    pub checkpoint_id: String,
    pub log_head_hash: String,
    pub log_size: i64,
    pub state_root: String,
    pub created_at: i64,
}

/// A witness's signature over a checkpoint, made at `created_at`
/// (milliseconds since the Unix epoch).
#[derive(Debug)]
pub struct WitnessReceipt {
    pub checkpoint_id: String,
    pub witness_id: String,
    pub signature: String,
    pub created_at: i64,
}

/// How far the receipts of a checkpoint reach.
#[derive(Debug)]
pub struct WitnessSummary {
    pub checkpoint_id: String,
    pub receipts: Vec<WitnessReceipt>,
    pub quorum: usize,
    pub quorum_met: bool,
    pub distinct_scopes: Vec<String>,
    pub cross_scope_quorum_met: bool,
}

#[derive(Debug)]
pub struct WitnessScopeEntry {
    pub witness_id: String,
    pub scope: String,
    pub environment: String,
}

#[derive(Debug)]
pub struct WitnessEnvironmentEntry {
    pub environment: String,
    pub witness_ids: Vec<String>,
    pub scopes: Vec<String>,
}

/// Where the witnesses run.
#[derive(Debug)]
pub struct WitnessTopology {
    pub scope: String,
    pub witness_ids: Vec<String>,
    pub witness_scopes: Vec<WitnessScopeEntry>,
    pub environments: Vec<WitnessEnvironmentEntry>,
    pub quorum: usize,
    pub cross_environment: bool,
    pub cross_environment_quorum_possible: bool,
}

pub open spec fn bar() -> Seq<char> {
    seq!['|']
}

/// What a witness signs of a checkpoint: its id, log head, log size and
/// state root, separated by `|`.
pub open spec fn checkpoint_material(c: TrustCheckpoint) -> Seq<char> {
    c.checkpoint_id@ + bar() + c.log_head_hash@ + bar() + signed_decimal(c.log_size as int) + bar() + c.state_root@
}

/// The signature of a witness with `secret` over `material`.
pub open spec fn witness_signature(secret: Seq<char>, material: Seq<char>) -> Seq<char> {
    blake3_hex(vstd::utf8::encode_utf8(secret + bar() + material))
}

/// The position of the first witness with id `id`, if any.
pub open spec fn witness_index(ws: Seq<WitnessKeyView>, id: Seq<char>) -> Option<int> {
    if exists|i: int| 0 <= i < ws.len() && ws[i].id == id {
        Some(choose|i: int| 0 <= i < ws.len() && ws[i].id == id && forall|j: int| 0 <= j < i ==> ws[j].id != id)
    } else {
        None
    }
}

pub open spec fn opt_text(o: Option<&str>) -> Option<Seq<char>> {
    match o {
        Some(s) => Some(s@),
        None => None,
    }
}

/// The witness that signs when `wanted` is asked for: the first with that
/// id, or the first of all when none is named.
pub open spec fn chosen_witness(ws: Seq<WitnessKeyView>, wanted: Option<Seq<char>>) -> Option<int> {
    match wanted {
        Some(id) => witness_index(ws, id),
        None => if ws.len() > 0 {
            Some(0)
        } else {
            None
        },
    }
}

/// The scopes of the witnesses that signed the receipts, for the receipts
/// whose witness is configured.
pub open spec fn receipt_scopes(ws: Seq<WitnessKeyView>, rs: Seq<WitnessReceipt>) -> Seq<Seq<char>>
    decreases rs.len(),
{
    if rs.len() == 0 {
        Seq::empty()
    } else {
        let rest = receipt_scopes(ws, rs.drop_last());
        match witness_index(ws, rs.last().witness_id@) {
            Some(i) => rest.push(ws[i].scope),
            None => rest,
        }
    }
}

/// The ids of the witnesses that run in `env`, in order.
pub open spec fn ids_in(ws: Seq<WitnessKeyView>, env: Seq<char>) -> Seq<Seq<char>>
    decreases ws.len(),
{
    if ws.len() == 0 {
        Seq::empty()
    } else {
        let rest = ids_in(ws.drop_last(), env);
        if ws.last().environment == env {
            rest.push(ws.last().id)
        } else {
            rest
        }
    }
}

/// The scopes of the witnesses that run in `env`, in order.
pub open spec fn scopes_in(ws: Seq<WitnessKeyView>, env: Seq<char>) -> Seq<Seq<char>>
    decreases ws.len(),
{
    if ws.len() == 0 {
        Seq::empty()
    } else {
        let rest = scopes_in(ws.drop_last(), env);
        if ws.last().environment == env {
            rest.push(ws.last().scope)
        } else {
            rest
        }
    }
}

pub open spec fn env_names(es: Seq<WitnessEnvironmentEntry>) -> Seq<Seq<char>> {
    es.map_values(|e: WitnessEnvironmentEntry| e.environment@)
}

/// An environment entry lists, sorted, the ids of the witnesses of its
/// environment, each as often as it is configured there, and their scopes,
/// sorted and without repetition.
pub open spec fn entry_describes(e: WitnessEnvironmentEntry, ws: Seq<WitnessKeyView>) -> bool {
    &&& sorted_by_key(e.witness_ids@)
    &&& texts(e.witness_ids@).to_multiset() == ids_in(ws, e.environment@).to_multiset()
    &&& strictly_sorted(texts(e.scopes@))
    &&& texts(e.scopes@).to_set() == scopes_in(ws, e.environment@).to_set()
}

proof fn lemma_witness_index_found(ws: Seq<WitnessKeyView>, id: Seq<char>, i: int)
    requires
        0 <= i < ws.len(),
        ws[i].id == id,
        forall|j: int| 0 <= j < i ==> ws[j].id != id,
    ensures
        witness_index(ws, id) == Some(i),
{
    let k = choose|k: int| 0 <= k < ws.len() && ws[k].id == id && forall|j: int| 0 <= j < k ==> ws[j].id != id;
    if k < i {
    } else if k > i {
        assert(ws[i].id == id);
    }
}

/// What a witness with `secret` signs over `checkpoint`.
fn signing_text(secret: &str, checkpoint: &TrustCheckpoint) -> (r: String)
    ensures
        r@ == secret@ + bar() + checkpoint_material(*checkpoint),
{
    proof {
        reveal_strlit("|");
    }
    let mut material = checkpoint.checkpoint_id.clone();
    material.append("|");
    material.append(checkpoint.log_head_hash.as_str());
    material.append("|");
    material.append(i64_to_text(checkpoint.log_size).as_str());
    material.append("|");
    material.append(checkpoint.state_root.as_str());
    let mut signed = secret.to_owned();
    signed.append("|");
    signed.append(material.as_str());
    proof {
        assert(material@ =~= checkpoint_material(*checkpoint));
        assert(signed@ =~= secret@ + bar() + checkpoint_material(*checkpoint));
    }
    signed
}

impl WitnessService {
    /// The position of the first witness with id `id`.
    fn find_witness(&self, id: &str) -> (r: Option<usize>)
        ensures
            match r {
                Some(i) => i < self.witnesses@.len() && witness_index(self@.witnesses, id@) == Some(i as int),
                None => witness_index(self@.witnesses, id@) is None,
            },
    {
        let ghost ws = self@.witnesses;
        let mut i: usize = 0;
        while i < self.witnesses.len()
            invariant
                ws == keys_view(self.witnesses@),
                i <= ws.len(),
                forall|j: int| 0 <= j < i ==> ws[j].id != id@,
            decreases ws.len() - i,
        {
            if str_eq(self.witnesses[i].id.as_str(), id) {
                proof {
                    assert(ws[i as int].id == id@);
                    lemma_witness_index_found(ws, id@, i as int);
                }
                return Some(i);
            }
            i = i + 1;
        }
        None
    }

    /// The receipt of the witness named `witness_id` (the first witness when
    /// none is named) over `checkpoint`, made at `now`: the witness signs the
    /// checkpoint's material with its secret.
    pub fn attest_at(&self, checkpoint_id: &str, checkpoint: &TrustCheckpoint, witness_id: Option<&str>, now: i64) -> (r:
        Result<WitnessReceipt, String>)
        requires
            self.wf(),
        ensures
            r is Ok <==> chosen_witness(self@.witnesses, opt_text(witness_id)) is Some,
            match r {
                Ok(rc) => {
                    let w = self@.witnesses[chosen_witness(self@.witnesses, opt_text(witness_id))->0];
                    &&& rc.checkpoint_id@ == checkpoint_id@
                    &&& rc.witness_id@ == w.id
                    &&& rc.signature@ == witness_signature(w.secret, checkpoint_material(*checkpoint))
                    &&& rc.created_at == now
                },
                Err(e) => e@ == (if witness_id is Some {
                    "witness_id not configured"@
                } else {
                    "no witness configured"@
                }),
            },
    {
        let i = match witness_id {
            Some(id) => match self.find_witness(id) {
                Some(i) => i,
                None => {
                    return Err("witness_id not configured".to_owned());
                },
            },
            None => {
                if self.witnesses.len() == 0 {
                    return Err("no witness configured".to_owned());
                }
                0
            },
        };
        assert(self@.witnesses[i as int] == self.witnesses@[i as int]@);
        let w = &self.witnesses[i];
        let signed = signing_text(w.secret.as_str(), checkpoint);
        let signature = hash_text(signed.as_str());
        Ok(WitnessReceipt { checkpoint_id: checkpoint_id.to_owned(), witness_id: w.id.clone(), signature, created_at: now })
    }

    /// The receipt of the witness named `witness_id` (the first witness when
    /// none is named) over `checkpoint`, made now.
    pub fn attest(&self, checkpoint_id: &str, checkpoint: &TrustCheckpoint, witness_id: Option<&str>) -> (r: Result<
        WitnessReceipt,
        String,
    >)
        requires
            self.wf(),
        ensures
            r is Ok <==> chosen_witness(self@.witnesses, opt_text(witness_id)) is Some,
            match r {
                Ok(rc) => {
                    let w = self@.witnesses[chosen_witness(self@.witnesses, opt_text(witness_id))->0];
                    &&& rc.checkpoint_id@ == checkpoint_id@
                    &&& rc.witness_id@ == w.id
                    &&& rc.signature@ == witness_signature(w.secret, checkpoint_material(*checkpoint))
                },
                Err(e) => e@ == (if witness_id is Some {
                    "witness_id not configured"@
                } else {
                    "no witness configured"@
                }),
            },
    {
        let now = now_millis();
        self.attest_at(checkpoint_id, checkpoint, witness_id, now)
    }

    /// The summary of the receipts of a checkpoint: whether they reach the
    /// quorum, and over how many scopes the signing witnesses spread.
    pub fn summary(&self, checkpoint_id: &str, receipts: Vec<WitnessReceipt>) -> (r: WitnessSummary)
        requires
            self.wf(),
        ensures
            r.checkpoint_id@ == checkpoint_id@,
            r.receipts@ == receipts@,
            r.quorum == self@.quorum,
            r.quorum_met == (receipts@.len() >= self@.quorum),
            strictly_sorted(texts(r.distinct_scopes@)),
            texts(r.distinct_scopes@).to_set() == receipt_scopes(self@.witnesses, receipts@).to_set(),
            r.cross_scope_quorum_met == (r.quorum_met && r.distinct_scopes@.len() >= 2),
    {
        let ghost ws = self@.witnesses;
        let mut scopes: Vec<String> = Vec::new();
        let mut i: usize = 0;
        proof {
            assert(receipts@.take(0) =~= Seq::<WitnessReceipt>::empty());
        }
        while i < receipts.len()
            invariant
                ws == keys_view(self.witnesses@),
                i <= receipts@.len(),
                texts(scopes@) == receipt_scopes(ws, receipts@.take(i as int)),
            decreases receipts@.len() - i,
        {
            proof {
                assert(receipts@.take(i + 1).drop_last() =~= receipts@.take(i as int));
                assert(receipts@.take(i + 1).last() == receipts@[i as int]);
            }
            match self.find_witness(receipts[i].witness_id.as_str()) {
                Some(k) => {
                    let ghost before = scopes@;
                    assert(ws[k as int] == self.witnesses@[k as int]@);
                    scopes.push(self.witnesses[k].scope.clone());
                    proof {
                        assert(texts(scopes@) =~= texts(before).push(ws[k as int].scope));
                    }
                },
                None => {},
            }
            i = i + 1;
        }
        proof {
            assert(receipts@.take(receipts@.len() as int) =~= receipts@);
        }
        let distinct_scopes = distinct_sorted(&scopes);
        let quorum_met = receipts.len() >= self.quorum;
        let cross = quorum_met && distinct_scopes.len() >= 2;
        WitnessSummary {
            checkpoint_id: checkpoint_id.to_owned(),
            receipts,
            quorum: self.quorum,
            quorum_met,
            distinct_scopes,
            cross_scope_quorum_met: cross,
        }
    }

    /// The entry of environment `env`.
    fn environment_entry(&self, env: &str) -> (r: WitnessEnvironmentEntry)
        ensures
            r.environment@ == env@,
            entry_describes(r, self@.witnesses),
    {
        let ghost ws = self@.witnesses;
        let mut ids: Vec<String> = Vec::new();
        let mut scopes: Vec<String> = Vec::new();
        let mut i: usize = 0;
        proof {
            assert(ws.take(0) =~= Seq::<WitnessKeyView>::empty());
        }
        while i < self.witnesses.len()
            invariant
                ws == keys_view(self.witnesses@),
                i <= ws.len(),
                texts(ids@) == ids_in(ws.take(i as int), env@),
                texts(scopes@) == scopes_in(ws.take(i as int), env@),
            decreases ws.len() - i,
        {
            proof {
                assert(ws.take(i + 1).drop_last() =~= ws.take(i as int));
                assert(ws.take(i + 1).last() == ws[i as int]);
            }
            if str_eq(self.witnesses[i].environment.as_str(), env) {
                let ghost before_ids = ids@;
                let ghost before_scopes = scopes@;
                ids.push(self.witnesses[i].id.clone());
                scopes.push(self.witnesses[i].scope.clone());
                proof {
                    assert(texts(ids@) =~= texts(before_ids).push(ws[i as int].id));
                    assert(texts(scopes@) =~= texts(before_scopes).push(ws[i as int].scope));
                }
            }
            i = i + 1;
        }
        proof {
            assert(ws.take(ws.len() as int) =~= ws);
        }
        let ghost unsorted = ids@;
        let sorted_ids = sort_by_key(ids);
        proof {
            lemma_map_keeps_multiset(sorted_ids@, unsorted, |x: String| x@);
        }
        let distinct = distinct_sorted(&scopes);
        WitnessEnvironmentEntry { environment: env.to_owned(), witness_ids: sorted_ids, scopes: distinct }
    }

    /// Where the witnesses run: their ids and places in configuration order,
    /// and one entry per environment, in increasing order of its name.
    pub fn topology(&self) -> (r: WitnessTopology)
        requires
            self.wf(),
        ensures
            r.scope@ == self@.scope,
            texts(r.witness_ids@) == self@.witnesses.map_values(|w: WitnessKeyView| w.id),
            r.witness_scopes@.len() == self@.witnesses.len(),
            forall|i: int| 0 <= i < r.witness_scopes@.len() ==> {
                let e = #[trigger] r.witness_scopes@[i];
                let w = self@.witnesses[i];
                e.witness_id@ == w.id && e.scope@ == w.scope && e.environment@ == w.environment
            },
            strictly_sorted(env_names(r.environments@)),
            env_names(r.environments@).to_set() == self@.witnesses.map_values(
                |w: WitnessKeyView| w.environment,
            ).to_set(),
            forall|k: int| 0 <= k < r.environments@.len() ==> entry_describes(
                #[trigger] r.environments@[k],
                self@.witnesses,
            ),
            r.quorum == self@.quorum,
            r.cross_environment == (r.environments@.len() >= 2),
            r.cross_environment_quorum_possible == (r.cross_environment && self@.quorum >= 2
                && self@.witnesses.len() >= self@.quorum),
    {
        let ghost ws = self@.witnesses;
        let mut ids: Vec<String> = Vec::new();
        let mut places: Vec<WitnessScopeEntry> = Vec::new();
        let mut envs: Vec<String> = Vec::new();
        let mut i: usize = 0;
        while i < self.witnesses.len()
            invariant
                ws == keys_view(self.witnesses@),
                i <= ws.len(),
                texts(ids@) == ws.take(i as int).map_values(|w: WitnessKeyView| w.id),
                texts(envs@) == ws.take(i as int).map_values(|w: WitnessKeyView| w.environment),
                places@.len() == i,
                forall|j: int| 0 <= j < i ==> {
                    let e = #[trigger] places@[j];
                    e.witness_id@ == ws[j].id && e.scope@ == ws[j].scope && e.environment@ == ws[j].environment
                },
            decreases ws.len() - i,
        {
            let w = &self.witnesses[i];
            let ghost before_ids = ids@;
            let ghost before_envs = envs@;
            proof {
                assert(ws.take(i + 1) =~= ws.take(i as int).push(ws[i as int]));
                assert(ws[i as int] == w@);
            }
            ids.push(w.id.clone());
            envs.push(w.environment.clone());
            places.push(
                WitnessScopeEntry { witness_id: w.id.clone(), scope: w.scope.clone(), environment: w.environment.clone() },
            );
            proof {
                assert(texts(ids@) =~= texts(before_ids).push(w.id@));
                assert(texts(envs@) =~= texts(before_envs).push(w.environment@));
                assert(ws.take(i + 1).map_values(|w: WitnessKeyView| w.id) =~= ws.take(i as int).map_values(
                    |w: WitnessKeyView| w.id,
                ).push(w.id@));
                assert(ws.take(i + 1).map_values(|w: WitnessKeyView| w.environment) =~= ws.take(i as int).map_values(
                    |w: WitnessKeyView| w.environment,
                ).push(w.environment@));
                assert(texts(ids@) =~= ws.take(i + 1).map_values(|w: WitnessKeyView| w.id));
                assert(texts(envs@) =~= ws.take(i + 1).map_values(|w: WitnessKeyView| w.environment));
            }
            i = i + 1;
        }
        proof {
            assert(ws.take(ws.len() as int) =~= ws);
        }
        let names = distinct_sorted(&envs);
        let mut environments: Vec<WitnessEnvironmentEntry> = Vec::new();
        let mut k: usize = 0;
        while k < names.len()
            invariant
                ws == keys_view(self.witnesses@),
                k <= names@.len(),
                env_names(environments@) == texts(names@).take(k as int),
                forall|j: int| 0 <= j < environments@.len() ==> entry_describes(#[trigger] environments@[j], ws),
            decreases names@.len() - k,
        {
            let e = self.environment_entry(names[k].as_str());
            let ghost before = environments@;
            environments.push(e);
            proof {
                assert(env_names(environments@) =~= env_names(before).push(names@[k as int]@));
                assert(texts(names@).take(k + 1) =~= texts(names@).take(k as int).push(names@[k as int]@));
                assert(env_names(environments@) =~= texts(names@).take(k + 1));
            }
            k = k + 1;
        }
        proof {
            assert(texts(names@).take(names@.len() as int) =~= texts(names@));
        }
        let cross_environment = environments.len() >= 2;
        let possible = cross_environment && self.quorum >= 2 && self.witnesses.len() >= self.quorum;
        WitnessTopology {
            scope: self.scope.clone(),
            witness_ids: ids,
            witness_scopes: places,
            environments,
            quorum: self.quorum,
            cross_environment,
            cross_environment_quorum_possible: possible,
        }
    }
}

} // verus!
