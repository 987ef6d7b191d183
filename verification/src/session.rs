//! Agent sessions and the checkpoints of their work.
use vstd::prelude::*;
use crate::keyed::{
    Keyed, unique_keys, to_map, has_key, find_key, upsert, replace_at, lemma_index_of_key,
    lemma_to_map_empty, lemma_to_map_push,
};
use crate::clock::{now_millis, new_uuid_string};
use crate::versioning::model::{opt_str, clone_opt_string, clone_strings, strings_view};

verus! {

#[derive(Debug)]
pub struct AgentSessionRecord {
    pub session_id: String,
    pub repo_id: String,
    pub branch: String,
    pub base_changeset_id: Option<String>,
    pub workspace_root: String,
    pub actor_id: String,
    pub intent_id: Option<String>,
    pub task_id: Option<String>,
    pub agent_run_id: Option<String>,
    pub trigger_reason: Option<String>,
    pub risk_level: Option<String>,
    pub semantic_summary: Option<String>,
    /// Milliseconds since the Unix epoch.
    pub expires_at: Option<i64>,
    /// Milliseconds since the Unix epoch.
    pub created_at: i64,
}

impl Clone for AgentSessionRecord {
    fn clone(&self) -> (r: Self)
        ensures
            r == *self,
    {
        AgentSessionRecord {
            session_id: self.session_id.clone(),
            repo_id: self.repo_id.clone(),
            branch: self.branch.clone(),
            base_changeset_id: clone_opt_string(&self.base_changeset_id),
            workspace_root: self.workspace_root.clone(),
            actor_id: self.actor_id.clone(),
            intent_id: clone_opt_string(&self.intent_id),
            task_id: clone_opt_string(&self.task_id),
            agent_run_id: clone_opt_string(&self.agent_run_id),
            trigger_reason: clone_opt_string(&self.trigger_reason),
            risk_level: clone_opt_string(&self.risk_level),
            semantic_summary: clone_opt_string(&self.semantic_summary),
            expires_at: self.expires_at,
            created_at: self.created_at,
        }
    }
}

impl Keyed for AgentSessionRecord {
    type Model = AgentSessionRecord;

    open spec fn key_of(&self) -> Seq<char> {
        self.session_id@
    }

    open spec fn model(&self) -> AgentSessionRecord {
        *self
    }

    fn key(&self) -> (k: &str) {
        self.session_id.as_str()
    }
}

#[derive(Debug)]
pub struct CreateSessionInput {
    pub repo_id: String,
    pub branch: String,
    pub base_changeset_id: Option<String>,
    pub workspace_root: String,
    pub actor_id: String,
    pub intent_id: Option<String>,
    pub task_id: Option<String>,
    pub agent_run_id: Option<String>,
    pub trigger_reason: Option<String>,
    pub risk_level: Option<String>,
    pub semantic_summary: Option<String>,
    pub expires_at: Option<i64>,
}

/// One asset saved in a checkpoint.
#[derive(Debug, PartialEq, Eq)]
pub struct CheckpointAsset {
    pub asset_id: String,
    pub path: String,
    pub blob_hash: String,
}

impl Clone for CheckpointAsset {
    fn clone(&self) -> (r: Self)
        ensures
            r == *self,
    {
        CheckpointAsset {
            asset_id: self.asset_id.clone(),
            path: self.path.clone(),
            blob_hash: self.blob_hash.clone(),
        }
    }
}

pub fn clone_assets(v: &Vec<CheckpointAsset>) -> (r: Vec<CheckpointAsset>)
    ensures
        r@ == v@,
{
    let mut r: Vec<CheckpointAsset> = Vec::new();
    let mut i: usize = 0;
    while i < v.len()
        invariant
            i <= v@.len(),
            r@ == v@.subrange(0, i as int),
        decreases v@.len() - i,
    {
        r.push(v[i].clone());
        assert(r@ =~= v@.subrange(0, i + 1));
        i = i + 1;
    }
    assert(v@.subrange(0, v@.len() as int) =~= v@);
    r
}

#[derive(Debug)]
pub struct SessionCheckpointRecord {
    pub checkpoint_id: String,
    pub session_id: String,
    pub repo_id: String,
    pub branch: String,
    pub base_changeset_id: Option<String>,
    pub parent_checkpoint_id: Option<String>,
    pub workspace_root: String,
    pub actor_id: String,
    pub trigger_reason: String,
    pub intent_id: Option<String>,
    pub task_id: Option<String>,
    pub agent_run_id: Option<String>,
    pub risk_level: Option<String>,
    pub semantic_summary: Option<String>,
    pub expires_at: Option<i64>,
    pub created_at: i64,
    pub assets: Vec<CheckpointAsset>,
}

/// A checkpoint record, its assets taken as a sequence.
pub struct CheckpointView {
    pub checkpoint_id: String,
    pub session_id: String,
    pub repo_id: String,
    pub branch: String,
    pub base_changeset_id: Option<String>,
    pub parent_checkpoint_id: Option<String>,
    pub workspace_root: String,
    pub actor_id: String,
    pub trigger_reason: String,
    pub intent_id: Option<String>,
    pub task_id: Option<String>,
    pub agent_run_id: Option<String>,
    pub risk_level: Option<String>,
    pub semantic_summary: Option<String>,
    pub expires_at: Option<i64>,
    pub created_at: i64,
    pub assets: Seq<CheckpointAsset>,
}

impl View for SessionCheckpointRecord {
    type V = CheckpointView;

    open spec fn view(&self) -> CheckpointView {
        CheckpointView {
            checkpoint_id: self.checkpoint_id,
            session_id: self.session_id,
            repo_id: self.repo_id,
            branch: self.branch,
            base_changeset_id: self.base_changeset_id,
            parent_checkpoint_id: self.parent_checkpoint_id,
            workspace_root: self.workspace_root,
            actor_id: self.actor_id,
            trigger_reason: self.trigger_reason,
            intent_id: self.intent_id,
            task_id: self.task_id,
            agent_run_id: self.agent_run_id,
            risk_level: self.risk_level,
            semantic_summary: self.semantic_summary,
            expires_at: self.expires_at,
            created_at: self.created_at,
            assets: self.assets@,
        }
    }
}

impl Clone for SessionCheckpointRecord {
    fn clone(&self) -> (r: Self)
        ensures
            r@ == self@,
    {
        SessionCheckpointRecord {
            checkpoint_id: self.checkpoint_id.clone(),
            session_id: self.session_id.clone(),
            repo_id: self.repo_id.clone(),
            branch: self.branch.clone(),
            base_changeset_id: clone_opt_string(&self.base_changeset_id),
            parent_checkpoint_id: clone_opt_string(&self.parent_checkpoint_id),
            workspace_root: self.workspace_root.clone(),
            actor_id: self.actor_id.clone(),
            trigger_reason: self.trigger_reason.clone(),
            intent_id: clone_opt_string(&self.intent_id),
            task_id: clone_opt_string(&self.task_id),
            agent_run_id: clone_opt_string(&self.agent_run_id),
            risk_level: clone_opt_string(&self.risk_level),
            semantic_summary: clone_opt_string(&self.semantic_summary),
            expires_at: self.expires_at,
            created_at: self.created_at,
            assets: clone_assets(&self.assets),
        }
    }
}

impl Keyed for SessionCheckpointRecord {
    type Model = CheckpointView;

    open spec fn key_of(&self) -> Seq<char> {
        self.checkpoint_id@
    }

    open spec fn model(&self) -> CheckpointView {
        self@
    }

    fn key(&self) -> (k: &str) {
        self.checkpoint_id.as_str()
    }
}

#[derive(Debug)]
pub struct CreateCheckpointInput {
    pub session_id: String,
    pub actor_id: String,
    pub trigger_reason: String,
    pub semantic_summary: Option<String>,
    pub expires_at: Option<i64>,
    pub assets: Vec<CheckpointAsset>,
}

/// The checkpoints of a session, oldest first.
#[derive(Debug)]
pub struct CheckpointPage {
    pub items: Vec<SessionCheckpointRecord>,
}

/// What a checkpoint restores.
#[derive(Debug)]
pub struct CheckpointSnapshot {
    pub checkpoint_id: String,
    pub session_id: String,
    pub repo_id: String,
    pub branch: String,
    pub base_changeset_id: Option<String>,
    pub workspace_root: String,
    pub assets: Vec<CheckpointAsset>,
}

#[derive(Debug, PartialEq, Eq)]
pub enum SessionError {
    SessionNotFound { session_id: String },
    CheckpointNotFound { checkpoint_id: String },
    CheckpointExpired { checkpoint_id: String },
}

pub enum SessionErrorView {
    SessionNotFound { session_id: Seq<char> },
    CheckpointNotFound { checkpoint_id: Seq<char> },
    CheckpointExpired { checkpoint_id: Seq<char> },
}

impl View for SessionError {
    type V = SessionErrorView;

    open spec fn view(&self) -> SessionErrorView {
        match self {
            SessionError::SessionNotFound { session_id } => SessionErrorView::SessionNotFound {
                session_id: session_id@,
            },
            SessionError::CheckpointNotFound { checkpoint_id } => SessionErrorView::CheckpointNotFound {
                checkpoint_id: checkpoint_id@,
            },
            SessionError::CheckpointExpired { checkpoint_id } => SessionErrorView::CheckpointExpired {
                checkpoint_id: checkpoint_id@,
            },
        }
    }
}

/// The ids of the checkpoints of one session, oldest first.
pub struct SessionOrder {
    pub session_id: String,
    pub checkpoint_ids: Vec<String>,
}

impl Keyed for SessionOrder {
    type Model = Seq<Seq<char>>;

    open spec fn key_of(&self) -> Seq<char> {
        self.session_id@
    }

    open spec fn model(&self) -> Seq<Seq<char>> {
        strings_view(self.checkpoint_ids@)
    }

    fn key(&self) -> (k: &str) {
        self.session_id.as_str()
    }
}

/// The state of the session store.
pub struct SessionStateView {
    pub sessions: Map<Seq<char>, AgentSessionRecord>,
    pub checkpoints: Map<Seq<char>, CheckpointView>,
    pub order: Map<Seq<char>, Seq<Seq<char>>>,
}

/// The ids of the checkpoints of a session, oldest first (none if it has none).
pub open spec fn checkpoint_order(s: SessionStateView, session_id: Seq<char>) -> Seq<Seq<char>> {
    if s.order.contains_key(session_id) {
        s.order[session_id]
    } else {
        Seq::empty()
    }
}

/// The session recorded from `input` as `id` at `now`.
pub open spec fn session_from_input(input: CreateSessionInput, id: String, now: i64) -> AgentSessionRecord {
    AgentSessionRecord {
        session_id: id,
        repo_id: input.repo_id,
        branch: input.branch,
        base_changeset_id: input.base_changeset_id,
        workspace_root: input.workspace_root,
        actor_id: input.actor_id,
        intent_id: input.intent_id,
        task_id: input.task_id,
        agent_run_id: input.agent_run_id,
        trigger_reason: input.trigger_reason,
        risk_level: input.risk_level,
        semantic_summary: input.semantic_summary,
        expires_at: input.expires_at,
        created_at: now,
    }
}

pub open spec fn or_else<T>(a: Option<T>, b: Option<T>) -> Option<T> {
    if a is Some {
        a
    } else {
        b
    }
}

/// The checkpoint recorded from `input` as `id` at `now`, in `session`, after `parent`.
pub open spec fn checkpoint_from_input(
    input: CreateCheckpointInput,
    session: AgentSessionRecord,
    parent: Option<String>,
    id: String,
    now: i64,
) -> CheckpointView {
    CheckpointView {
        checkpoint_id: id,
        session_id: input.session_id,
        repo_id: session.repo_id,
        branch: session.branch,
        base_changeset_id: session.base_changeset_id,
        parent_checkpoint_id: parent,
        workspace_root: session.workspace_root,
        actor_id: input.actor_id,
        trigger_reason: input.trigger_reason,
        intent_id: session.intent_id,
        task_id: session.task_id,
        agent_run_id: session.agent_run_id,
        risk_level: session.risk_level,
        semantic_summary: or_else(input.semantic_summary, session.semantic_summary),
        expires_at: or_else(input.expires_at, session.expires_at),
        created_at: now,
        assets: input.assets@,
    }
}

/// The last id of a list, if any.
pub open spec fn last_id(ids: Seq<Seq<char>>) -> Option<Seq<char>> {
    if ids.len() == 0 {
        None
    } else {
        Some(ids.last())
    }
}

/// The store of sessions and checkpoints.
pub struct SessionManager {
    sessions: Vec<AgentSessionRecord>,
    checkpoints: Vec<SessionCheckpointRecord>,
    order: Vec<SessionOrder>,
}

impl View for SessionManager {
    type V = SessionStateView;

    closed spec fn view(&self) -> SessionStateView {
        SessionStateView {
            sessions: to_map(self.sessions@),
            checkpoints: to_map(self.checkpoints@),
            order: to_map(self.order@),
        }
    }
}

pub open spec fn page_view(s: Seq<SessionCheckpointRecord>) -> Seq<CheckpointView> {
    s.map_values(|c: SessionCheckpointRecord| c@)
}

/// The records of the ids that the store knows, in order.
pub open spec fn known_checkpoints(ids: Seq<Seq<char>>, cs: Map<Seq<char>, CheckpointView>) -> Seq<
    CheckpointView,
>
    decreases ids.len(),
{
    if ids.len() == 0 {
        Seq::empty()
    } else {
        let rest = known_checkpoints(ids.drop_last(), cs);
        if cs.contains_key(ids.last()) {
            rest.push(cs[ids.last()])
        } else {
            rest
        }
    }
}

/// Whether a checkpoint's time has run out at `now`.
pub open spec fn checkpoint_expired(c: CheckpointView, now: i64) -> bool {
    match c.expires_at {
        Some(e) => e <= now,
        None => false,
    }
}

impl SessionManager {
    pub closed spec fn wf(&self) -> bool {
        &&& unique_keys(self.sessions@)
        &&& unique_keys(self.checkpoints@)
        &&& unique_keys(self.order@)
        &&& checkpoints_consistent(self@)
    }

    /// A well-formed store is consistent: every listed checkpoint id names a
    /// stored checkpoint, stored under its own id.
    pub proof fn lemma_wf_consistent(&self)
        requires
            self.wf(),
        ensures
            checkpoints_consistent(self@),
    {
    }

    pub fn new() -> (r: SessionManager)
        ensures
            r.wf(),
            r@.sessions == Map::<Seq<char>, AgentSessionRecord>::empty(),
            r@.checkpoints == Map::<Seq<char>, CheckpointView>::empty(),
            r@.order == Map::<Seq<char>, Seq<Seq<char>>>::empty(),
    {
        let r = SessionManager { sessions: Vec::new(), checkpoints: Vec::new(), order: Vec::new() };
        proof {
            lemma_to_map_empty(r.sessions@);
            lemma_to_map_empty(r.checkpoints@);
            lemma_to_map_empty(r.order@);
        }
        r
    }

    /// Gives `session_id` a list of checkpoints, empty if it has none yet.
    fn ensure_order(&mut self, session_id: &str)
        requires
            old(self).wf(),
        ensures
            final(self).wf(),
            final(self)@.sessions == old(self)@.sessions,
            final(self)@.checkpoints == old(self)@.checkpoints,
            final(self)@.order == if old(self)@.order.contains_key(session_id@) {
                old(self)@.order
            } else {
                old(self)@.order.insert(session_id@, Seq::empty())
            },
    {
        if find_key(&self.order, session_id).is_none() {
            let o = SessionOrder { session_id: session_id.to_owned(), checkpoint_ids: Vec::new() };
            proof {
                lemma_to_map_push(self.order@, o);
                assert(strings_view(o.checkpoint_ids@) =~= Seq::<Seq<char>>::empty());
                lemma_order_empty_consistent(self@, session_id@);
            }
            self.order.push(o);
        }
    }

    /// Appends `checkpoint_id` to the list of `session_id`, creating the list if needed.
    fn push_order(&mut self, session_id: &str, checkpoint_id: &str)
        requires
            old(self).wf(),
            old(self)@.checkpoints.contains_key(checkpoint_id@),
        ensures
            final(self).wf(),
            final(self)@.sessions == old(self)@.sessions,
            final(self)@.checkpoints == old(self)@.checkpoints,
            final(self)@.order == old(self)@.order.insert(
                session_id@,
                checkpoint_order(old(self)@, session_id@).push(checkpoint_id@),
            ),
    {
        proof {
            lemma_order_push_consistent(self@, session_id@, checkpoint_id@);
        }
        match find_key(&self.order, session_id) {
            Some(i) => {
                proof {
                    lemma_index_of_key(self.order@, i as int);
                }
                let mut ids = clone_strings(&self.order[i].checkpoint_ids);
                ids.push(checkpoint_id.to_owned());
                let o = SessionOrder { session_id: session_id.to_owned(), checkpoint_ids: ids };
                proof {
                    assert(strings_view(o.checkpoint_ids@) =~= strings_view(self.order@[i as int].checkpoint_ids@).push(checkpoint_id@));
                }
                replace_at(&mut self.order, i, o);
            },
            None => {
                let mut ids: Vec<String> = Vec::new();
                ids.push(checkpoint_id.to_owned());
                let o = SessionOrder { session_id: session_id.to_owned(), checkpoint_ids: ids };
                proof {
                    assert(strings_view(o.checkpoint_ids@) =~= Seq::<Seq<char>>::empty().push(checkpoint_id@));
                    lemma_to_map_push(self.order@, o);
                }
                self.order.push(o);
            },
        }
    }

    /// A store rebuilt from persisted sessions and checkpoints: each session gets
    /// a list of checkpoints, and the checkpoints join the lists of their
    /// sessions in order of creation (records with equal times keep their order).
    pub fn from_records(sessions: Vec<AgentSessionRecord>, checkpoints: Vec<SessionCheckpointRecord>) -> (r:
        SessionManager)
        ensures
            r.wf(),
            r@ == rebuilt_state(sessions@, sorted_by_time(checkpoints@)),
    {
        let mut m = SessionManager::new();
        let mut i: usize = 0;
        let mut sessions = sessions;
        let ghost all = sessions@;
        proof {
            assert(all.subrange(0, 0) =~= Seq::<AgentSessionRecord>::empty());
            assert(m@ == add_sessions(empty_state(), all.subrange(0, 0)));
        }
        while i < sessions.len()
            invariant
                m.wf(),
                sessions@ == all,
                i <= all.len(),
                m@ == add_sessions(empty_state(), all.subrange(0, i as int)),
            decreases all.len() - i,
        {
            let s = sessions[i].clone();
            m.ensure_order(s.session_id.as_str());
            let ghost before = m@;
            upsert(&mut m.sessions, s);
            proof {
                assert(all.subrange(0, i + 1).drop_last() =~= all.subrange(0, i as int));
                assert(all.subrange(0, i + 1).last() == s);
                assert(m@ =~= add_session(add_sessions(empty_state(), all.subrange(0, i as int)), s));
            }
            i = i + 1;
        }
        proof {
            assert(all.subrange(0, all.len() as int) =~= all);
        }
        let ghost mid = m@;
        let sorted = sort_checkpoints_by_time(checkpoints);
        let ghost cs = sorted@;
        let mut k: usize = 0;
        proof {
            assert(cs.subrange(0, 0) =~= Seq::<SessionCheckpointRecord>::empty());
        }
        while k < sorted.len()
            invariant
                m.wf(),
                sorted@ == cs,
                k <= cs.len(),
                m@ == add_checkpoints(mid, cs.subrange(0, k as int)),
            decreases cs.len() - k,
        {
            let c = sorted[k].clone();
            proof {
                lemma_store_checkpoint_consistent(m@, c);
            }
            upsert(&mut m.checkpoints, c.clone());
            m.push_order(c.session_id.as_str(), c.checkpoint_id.as_str());
            proof {
                assert(cs.subrange(0, k + 1).drop_last() =~= cs.subrange(0, k as int));
                assert(cs.subrange(0, k + 1).last()@ == c@);
                assert(m@ =~= add_checkpoint(add_checkpoints(mid, cs.subrange(0, k as int)), cs[k as int]));
            }
            k = k + 1;
        }
        proof {
            assert(cs.subrange(0, cs.len() as int) =~= cs);
        }
        m
    }

    /// Records a new session, made at `now` with id `session_id`.
    pub fn create_session_with(&mut self, input: CreateSessionInput, session_id: String, now: i64) -> (r:
        AgentSessionRecord)
        requires
            old(self).wf(),
        ensures
            final(self).wf(),
            r == session_from_input(input, session_id, now),
            final(self)@ == add_session(old(self)@, r),
    {
        let record = AgentSessionRecord {
            session_id,
            repo_id: input.repo_id,
            branch: input.branch,
            base_changeset_id: input.base_changeset_id,
            workspace_root: input.workspace_root,
            actor_id: input.actor_id,
            intent_id: input.intent_id,
            task_id: input.task_id,
            agent_run_id: input.agent_run_id,
            trigger_reason: input.trigger_reason,
            risk_level: input.risk_level,
            semantic_summary: input.semantic_summary,
            expires_at: input.expires_at,
            created_at: now,
        };
        let result = record.clone();
        let ghost before = self@;
        upsert(&mut self.sessions, record);
        proof {
            assert(self@.checkpoints == before.checkpoints && self@.order == before.order);
            assert(checkpoints_consistent(self@));
        }
        self.ensure_order(result.session_id.as_str());
        proof {
            assert(self@ =~= add_session(old(self)@, result));
        }
        result
    }

    /// Records a new session with a random id, made now.
    pub fn create_session(&mut self, input: CreateSessionInput) -> (r: AgentSessionRecord)
        requires
            old(self).wf(),
        ensures
            final(self).wf(),
            exists|id: String, now: i64| r == #[trigger] session_from_input(input, id, now),
            final(self)@ == add_session(old(self)@, r),
    {
        let id = new_uuid_string();
        let now = now_millis();
        let ghost inp = input;
        let r = self.create_session_with(input, id, now);
        assert(r == session_from_input(inp, id, now));
        r
    }

    /// Records a checkpoint of a session, made at `now` with id `checkpoint_id`,
    /// after the session's last checkpoint.
    pub fn create_checkpoint_with(&mut self, input: CreateCheckpointInput, checkpoint_id: String, now: i64) -> (r:
        Result<SessionCheckpointRecord, SessionError>)
        requires
            old(self).wf(),
        ensures
            final(self).wf(),
            match r {
                Ok(c) => {
                    let s = old(self)@;
                    &&& s.sessions.contains_key(input.session_id@)
                    &&& c@ == checkpoint_from_input(
                        input,
                        s.sessions[input.session_id@],
                        c.parent_checkpoint_id,
                        checkpoint_id,
                        now,
                    )
                    &&& opt_str(c.parent_checkpoint_id) == last_id(checkpoint_order(s, input.session_id@))
                    &&& final(self)@ == add_checkpoint(s, c)
                },
                Err(e) => {
                    &&& !old(self)@.sessions.contains_key(input.session_id@)
                    &&& e@ == SessionErrorView::SessionNotFound { session_id: input.session_id@ }
                    &&& final(self)@ == old(self)@
                },
            },
    {
        let si = match find_key(&self.sessions, input.session_id.as_str()) {
            Some(i) => i,
            None => {
                return Err(SessionError::SessionNotFound { session_id: input.session_id });
            },
        };
        proof {
            lemma_index_of_key(self.sessions@, si as int);
        }
        let session = self.sessions[si].clone();
        let parent: Option<String> = match find_key(&self.order, input.session_id.as_str()) {
            Some(oi) => {
                proof {
                    lemma_index_of_key(self.order@, oi as int);
                }
                let ids = &self.order[oi].checkpoint_ids;
                if ids.len() == 0 {
                    None
                } else {
                    Some(ids[ids.len() - 1].clone())
                }
            },
            None => None,
        };
        let record = SessionCheckpointRecord {
            checkpoint_id,
            session_id: input.session_id,
            repo_id: session.repo_id,
            branch: session.branch,
            base_changeset_id: session.base_changeset_id,
            parent_checkpoint_id: parent,
            workspace_root: session.workspace_root,
            actor_id: input.actor_id,
            trigger_reason: input.trigger_reason,
            intent_id: session.intent_id,
            task_id: session.task_id,
            agent_run_id: session.agent_run_id,
            risk_level: session.risk_level,
            semantic_summary: match input.semantic_summary {
                Some(x) => Some(x),
                None => session.semantic_summary,
            },
            expires_at: match input.expires_at {
                Some(x) => Some(x),
                None => session.expires_at,
            },
            created_at: now,
            assets: input.assets,
        };
        let result = record.clone();
        proof {
            lemma_store_checkpoint_consistent(self@, record);
        }
        upsert(&mut self.checkpoints, record);
        self.push_order(result.session_id.as_str(), result.checkpoint_id.as_str());
        proof {
            assert(self@ =~= add_checkpoint(old(self)@, result));
        }
        Ok(result)
    }

    /// Records a checkpoint of a session with a random id, made now.
    pub fn create_checkpoint(&mut self, input: CreateCheckpointInput) -> (r: Result<
        SessionCheckpointRecord,
        SessionError,
    >)
        requires
            old(self).wf(),
        ensures
            final(self).wf(),
            match r {
                Ok(c) => {
                    let s = old(self)@;
                    &&& s.sessions.contains_key(input.session_id@)
                    &&& exists|id: String, now: i64|
                        c@ == #[trigger] checkpoint_from_input(
                            input,
                            s.sessions[input.session_id@],
                            c.parent_checkpoint_id,
                            id,
                            now,
                        )
                    &&& opt_str(c.parent_checkpoint_id) == last_id(checkpoint_order(s, input.session_id@))
                    &&& final(self)@ == add_checkpoint(s, c)
                },
                Err(e) => {
                    &&& !old(self)@.sessions.contains_key(input.session_id@)
                    &&& e@ == SessionErrorView::SessionNotFound { session_id: input.session_id@ }
                    &&& final(self)@ == old(self)@
                },
            },
    {
        let id = new_uuid_string();
        let now = now_millis();
        let ghost inp = input;
        let r = self.create_checkpoint_with(input, id, now);
        proof {
            if r is Ok {
                let c = r->Ok_0;
                assert(c@ == checkpoint_from_input(
                    inp,
                    old(self)@.sessions[inp.session_id@],
                    c.parent_checkpoint_id,
                    id,
                    now,
                ));
            }
        }
        r
    }

    /// The checkpoints of a session, oldest first.
    pub fn list_checkpoints(&self, session_id: &str) -> (r: Result<CheckpointPage, SessionError>)
        requires
            self.wf(),
        ensures
            match r {
                Ok(p) => {
                    &&& self@.sessions.contains_key(session_id@)
                    &&& page_view(p.items@) == known_checkpoints(checkpoint_order(self@, session_id@), self@.checkpoints)
                    &&& listed_ids(page_view(p.items@)) == checkpoint_order(self@, session_id@)
                },
                Err(e) => !self@.sessions.contains_key(session_id@) && e@
                    == SessionErrorView::SessionNotFound { session_id: session_id@ },
            },
    {
        if find_key(&self.sessions, session_id).is_none() {
            return Err(SessionError::SessionNotFound { session_id: session_id.to_owned() });
        }
        let mut items: Vec<SessionCheckpointRecord> = Vec::new();
        match find_key(&self.order, session_id) {
            None => {
                proof {
                    assert(page_view(items@) =~= Seq::<CheckpointView>::empty());
                }
            },
            Some(oi) => {
                proof {
                    lemma_index_of_key(self.order@, oi as int);
                }
                let ids = &self.order[oi].checkpoint_ids;
                let ghost idv = strings_view(ids@);
                let mut j: usize = 0;
                while j < ids.len()
                    invariant
                        self.wf(),
                        j <= ids@.len(),
                        idv == strings_view(ids@),
                        page_view(items@) == known_checkpoints(idv.subrange(0, j as int), to_map(self.checkpoints@)),
                    decreases ids@.len() - j,
                {
                    proof {
                        assert(idv.subrange(0, j + 1).drop_last() =~= idv.subrange(0, j as int));
                        assert(idv.subrange(0, j + 1).last() == ids@[j as int]@);
                    }
                    match find_key(&self.checkpoints, ids[j].as_str()) {
                        Some(ci) => {
                            proof {
                                lemma_index_of_key(self.checkpoints@, ci as int);
                            }
                            let c = self.checkpoints[ci].clone();
                            let ghost before = items@;
                            items.push(c);
                            proof {
                                assert(page_view(items@) =~= page_view(before).push(c@));
                            }
                        },
                        None => {},
                    }
                    j = j + 1;
                }
                proof {
                    assert(idv.subrange(0, ids@.len() as int) =~= idv);
                }
            },
        }
        proof {
            listing_gives_every_checkpoint(self@, session_id@);
        }
        Ok(CheckpointPage { items })
    }

    /// What checkpoint `checkpoint_id` restores, unless its time has run out at `now`.
    pub fn checkpoint_snapshot_at(&self, checkpoint_id: &str, now: i64) -> (r: Result<CheckpointSnapshot, SessionError>)
        requires
            self.wf(),
        ensures
            match r {
                Ok(s) => {
                    let c = self@.checkpoints[checkpoint_id@];
                    &&& self@.checkpoints.contains_key(checkpoint_id@)
                    &&& !checkpoint_expired(c, now)
                    &&& s.checkpoint_id == c.checkpoint_id
                    &&& s.session_id == c.session_id
                    &&& s.repo_id == c.repo_id
                    &&& s.branch == c.branch
                    &&& s.base_changeset_id == c.base_changeset_id
                    &&& s.workspace_root == c.workspace_root
                    &&& s.assets@ == c.assets
                },
                Err(e) => if !self@.checkpoints.contains_key(checkpoint_id@) {
                    e@ == SessionErrorView::CheckpointNotFound { checkpoint_id: checkpoint_id@ }
                } else {
                    checkpoint_expired(self@.checkpoints[checkpoint_id@], now) && e@
                        == SessionErrorView::CheckpointExpired { checkpoint_id: checkpoint_id@ }
                },
            },
    {
        let ci = match find_key(&self.checkpoints, checkpoint_id) {
            Some(i) => i,
            None => {
                return Err(SessionError::CheckpointNotFound { checkpoint_id: checkpoint_id.to_owned() });
            },
        };
        proof {
            lemma_index_of_key(self.checkpoints@, ci as int);
        }
        let c = &self.checkpoints[ci];
        let expired = match c.expires_at {
            Some(e) => e <= now,
            None => false,
        };
        if expired {
            return Err(SessionError::CheckpointExpired { checkpoint_id: checkpoint_id.to_owned() });
        }
        Ok(
            CheckpointSnapshot {
                checkpoint_id: c.checkpoint_id.clone(),
                session_id: c.session_id.clone(),
                repo_id: c.repo_id.clone(),
                branch: c.branch.clone(),
                base_changeset_id: clone_opt_string(&c.base_changeset_id),
                workspace_root: c.workspace_root.clone(),
                assets: clone_assets(&c.assets),
            },
        )
    }

    /// What checkpoint `checkpoint_id` restores, unless its time has run out now.
    pub fn checkpoint_snapshot(&self, checkpoint_id: &str) -> (r: Result<CheckpointSnapshot, SessionError>)
        requires
            self.wf(),
        ensures
            exists|now: i64| #[trigger] snapshot_answer(self@, checkpoint_id@, now, r),
    {
        let now = now_millis();
        let r = self.checkpoint_snapshot_at(checkpoint_id, now);
        assert(snapshot_answer(self@, checkpoint_id@, now, r));
        r
    }
}

/// Whether `r` is what a snapshot query for `checkpoint_id` answers at `now`.
pub open spec fn snapshot_answer(
    s: SessionStateView,
    checkpoint_id: Seq<char>,
    now: i64,
    r: Result<CheckpointSnapshot, SessionError>,
) -> bool {
    match r {
        Ok(snap) => {
            let c = s.checkpoints[checkpoint_id];
            &&& s.checkpoints.contains_key(checkpoint_id)
            &&& !checkpoint_expired(c, now)
            &&& snap.checkpoint_id == c.checkpoint_id
            &&& snap.session_id == c.session_id
            &&& snap.repo_id == c.repo_id
            &&& snap.branch == c.branch
            &&& snap.base_changeset_id == c.base_changeset_id
            &&& snap.workspace_root == c.workspace_root
            &&& snap.assets@ == c.assets
        },
        Err(e) => if !s.checkpoints.contains_key(checkpoint_id) {
            e@ == SessionErrorView::CheckpointNotFound { checkpoint_id }
        } else {
            checkpoint_expired(s.checkpoints[checkpoint_id], now) && e@
                == SessionErrorView::CheckpointExpired { checkpoint_id }
        },
    }
}

pub open spec fn empty_state() -> SessionStateView {
    SessionStateView { sessions: Map::empty(), checkpoints: Map::empty(), order: Map::empty() }
}

/// The store with session `r` recorded (and given a list of checkpoints if it had none).
pub open spec fn add_session(s: SessionStateView, r: AgentSessionRecord) -> SessionStateView {
    SessionStateView {
        sessions: s.sessions.insert(r.session_id@, r),
        order: if s.order.contains_key(r.session_id@) {
            s.order
        } else {
            s.order.insert(r.session_id@, Seq::empty())
        },
        ..s
    }
}

pub open spec fn add_sessions(s: SessionStateView, rs: Seq<AgentSessionRecord>) -> SessionStateView
    decreases rs.len(),
{
    if rs.len() == 0 {
        s
    } else {
        add_session(add_sessions(s, rs.drop_last()), rs.last())
    }
}

/// The store with checkpoint `c` recorded at the end of its session's list.
pub open spec fn add_checkpoint(s: SessionStateView, c: SessionCheckpointRecord) -> SessionStateView {
    SessionStateView {
        checkpoints: s.checkpoints.insert(c.checkpoint_id@, c@),
        order: s.order.insert(c.session_id@, checkpoint_order(s, c.session_id@).push(c.checkpoint_id@)),
        ..s
    }
}

pub open spec fn add_checkpoints(s: SessionStateView, cs: Seq<SessionCheckpointRecord>) -> SessionStateView
    decreases cs.len(),
{
    if cs.len() == 0 {
        s
    } else {
        add_checkpoint(add_checkpoints(s, cs.drop_last()), cs.last())
    }
}

/// The store rebuilt from sessions and from checkpoints in the given order.
pub open spec fn rebuilt_state(sessions: Seq<AgentSessionRecord>, checkpoints: Seq<SessionCheckpointRecord>) -> SessionStateView {
    add_checkpoints(add_sessions(empty_state(), sessions), checkpoints)
}

/// `x` placed after every record of `sorted` made no later than it.
pub open spec fn insert_by_time(sorted: Seq<SessionCheckpointRecord>, x: SessionCheckpointRecord) -> Seq<
    SessionCheckpointRecord,
>
    decreases sorted.len(),
{
    if sorted.len() == 0 {
        seq![x]
    } else if sorted.last().created_at <= x.created_at {
        sorted.push(x)
    } else {
        insert_by_time(sorted.drop_last(), x).push(sorted.last())
    }
}

/// The records in order of creation time, records with equal times in their
/// given order: the order that a stable sort by creation time gives.
pub open spec fn sorted_by_time(s: Seq<SessionCheckpointRecord>) -> Seq<SessionCheckpointRecord>
    decreases s.len(),
{
    if s.len() == 0 {
        s
    } else {
        insert_by_time(sorted_by_time(s.drop_last()), s.last())
    }
}

/// Places `x` after every record of `v` made no later than it.
fn insert_sorted_by_time(v: &mut Vec<SessionCheckpointRecord>, x: SessionCheckpointRecord)
    ensures
        final(v)@ == insert_by_time(old(v)@, x),
{
    let mut p: usize = v.len();
    let ghost orig = v@;
    proof {
        assert(orig.subrange(0, p as int) =~= orig);
        assert(orig + orig.subrange(p as int, orig.len() as int) =~= orig);
    }
    while p > 0 && v[p - 1].created_at > x.created_at
        invariant
            v@ == orig,
            p <= orig.len(),
            insert_by_time(orig, x) == insert_by_time(orig.subrange(0, p as int), x) + orig.subrange(p as int, orig.len() as int),
        decreases p,
    {
        proof {
            let pre = orig.subrange(0, p as int);
            assert(pre.drop_last() =~= orig.subrange(0, p - 1));
            assert(pre.last() == orig[p - 1]);
            assert(insert_by_time(pre, x) == insert_by_time(pre.drop_last(), x).push(pre.last()));
            assert(insert_by_time(pre.drop_last(), x).push(pre.last()) + orig.subrange(p as int, orig.len() as int)
                =~= insert_by_time(orig.subrange(0, p - 1), x) + orig.subrange(p - 1, orig.len() as int));
        }
        p = p - 1;
    }
    proof {
        let pre = orig.subrange(0, p as int);
        if p > 0 {
            assert(pre.last() == orig[p - 1]);
            assert(insert_by_time(pre, x) == pre.push(x));
        } else {
            assert(pre.len() == 0);
            assert(insert_by_time(pre, x) == seq![x]);
        }
        assert(orig.insert(p as int, x) =~= insert_by_time(pre, x) + orig.subrange(p as int, orig.len() as int));
    }
    v.insert(p, x);
}

/// The checkpoints in order of creation time, as a stable sort leaves them.
pub fn sort_checkpoints_by_time(v: Vec<SessionCheckpointRecord>) -> (r: Vec<SessionCheckpointRecord>)
    ensures
        r@ == sorted_by_time(v@),
{
    let ghost all = v@;
    let mut src = v;
    let mut r: Vec<SessionCheckpointRecord> = Vec::new();
    let mut i: usize = 0;
    let n = src.len();
    let mut rest: Vec<SessionCheckpointRecord> = Vec::new();
    // Take the records out front first: move them into a reversed stack.
    while src.len() > 0
        invariant
            rest@ + src@.reverse() == all.reverse(),
        decreases src@.len(),
    {
        let ghost before = src@;
        let x = src.pop().unwrap();
        proof {
            assert(before =~= src@.push(x));
            assert(before.reverse() =~= seq![x] + src@.reverse());
            assert(rest@.push(x) + src@.reverse() =~= rest@ + before.reverse());
        }
        rest.push(x);
    }
    proof {
        assert(src@.reverse() =~= Seq::<SessionCheckpointRecord>::empty());
        assert(rest@ =~= all.reverse());
        assert(all.subrange(0, 0) =~= Seq::<SessionCheckpointRecord>::empty());
    }
    while rest.len() > 0
        invariant
            n == all.len(),
            i == n - rest@.len(),
            i <= n,
            rest@ == all.subrange(i as int, n as int).reverse(),
            r@ == sorted_by_time(all.subrange(0, i as int)),
        decreases rest@.len(),
    {
        let ghost before = rest@;
        let x = rest.pop().unwrap();
        proof {
            assert(x == all[i as int]);
            assert(rest@ =~= all.subrange(i + 1, n as int).reverse());
            assert(all.subrange(0, i + 1).drop_last() =~= all.subrange(0, i as int));
            assert(all.subrange(0, i + 1).last() == x);
        }
        insert_sorted_by_time(&mut r, x);
        i = i + 1;
    }
    proof {
        assert(all.subrange(0, n as int) =~= all);
    }
    r
}

/// Every id in a session's list of checkpoints names a stored checkpoint, and
/// every checkpoint is stored under its own id.
pub open spec fn checkpoints_consistent(s: SessionStateView) -> bool {
    &&& forall|sid: Seq<char>, i: int|
        s.order.contains_key(sid) && 0 <= i < s.order[sid].len() ==> s.checkpoints.contains_key(
            #[trigger] s.order[sid][i],
        )
    &&& forall|k: Seq<char>| #[trigger] s.checkpoints.contains_key(k) ==> s.checkpoints[k].checkpoint_id@ == k
}

/// The ids of listed checkpoints.
pub open spec fn listed_ids(vs: Seq<CheckpointView>) -> Seq<Seq<char>> {
    vs.map_values(|v: CheckpointView| v.checkpoint_id@)
}

proof fn lemma_store_checkpoint_consistent(s: SessionStateView, c: SessionCheckpointRecord)
    requires
        checkpoints_consistent(s),
    ensures
        checkpoints_consistent(
            SessionStateView { checkpoints: s.checkpoints.insert(c.checkpoint_id@, c@), ..s },
        ),
{
}

proof fn lemma_order_push_consistent(s: SessionStateView, sid: Seq<char>, cid: Seq<char>)
    requires
        checkpoints_consistent(s),
        s.checkpoints.contains_key(cid),
    ensures
        checkpoints_consistent(
            SessionStateView { order: s.order.insert(sid, checkpoint_order(s, sid).push(cid)), ..s },
        ),
{
    let s2 = SessionStateView { order: s.order.insert(sid, checkpoint_order(s, sid).push(cid)), ..s };
    assert forall|x: Seq<char>, i: int| s2.order.contains_key(x) && 0 <= i < s2.order[x].len() implies s2.checkpoints.contains_key(
        #[trigger] s2.order[x][i],
    ) by {
        if x == sid && i < checkpoint_order(s, sid).len() {
            assert(s2.order[x][i] == s.order[sid][i]);
        }
    }
}

proof fn lemma_order_empty_consistent(s: SessionStateView, sid: Seq<char>)
    requires
        checkpoints_consistent(s),
    ensures
        checkpoints_consistent(SessionStateView { order: s.order.insert(sid, Seq::empty()), ..s }),
{
}

proof fn lemma_add_checkpoint_consistent(s: SessionStateView, c: SessionCheckpointRecord)
    requires
        checkpoints_consistent(s),
    ensures
        checkpoints_consistent(add_checkpoint(s, c)),
{
    let s1 = SessionStateView { checkpoints: s.checkpoints.insert(c.checkpoint_id@, c@), ..s };
    lemma_store_checkpoint_consistent(s, c);
    lemma_order_push_consistent(s1, c.session_id@, c.checkpoint_id@);
    assert(checkpoint_order(s1, c.session_id@) == checkpoint_order(s, c.session_id@));
    assert(add_checkpoint(s, c) == SessionStateView {
        order: s1.order.insert(c.session_id@, checkpoint_order(s1, c.session_id@).push(c.checkpoint_id@)),
        ..s1
    });
}

/// The empty store is consistent, and recording a session or a checkpoint
/// keeps a store consistent.
pub proof fn recording_keeps_checkpoints_consistent(
    s: SessionStateView,
    r: AgentSessionRecord,
    c: SessionCheckpointRecord,
)
    requires
        checkpoints_consistent(s),
    ensures
        checkpoints_consistent(empty_state()),
        checkpoints_consistent(add_session(s, r)),
        checkpoints_consistent(add_checkpoint(s, c)),
{
    lemma_order_empty_consistent(s, r.session_id@);
    lemma_add_checkpoint_consistent(s, c);
}

/// Listing a session of a consistent store gives each of its checkpoint ids,
/// in order: none is left out.
pub proof fn listing_gives_every_checkpoint(s: SessionStateView, session_id: Seq<char>)
    requires
        checkpoints_consistent(s),
    ensures
        listed_ids(known_checkpoints(checkpoint_order(s, session_id), s.checkpoints)) == checkpoint_order(
            s,
            session_id,
        ),
{
    let ids = checkpoint_order(s, session_id);
    assert forall|i: int| 0 <= i < ids.len() implies s.checkpoints.contains_key(#[trigger] ids[i]) by {
        assert(s.order.contains_key(session_id));
        assert(ids[i] == s.order[session_id][i]);
    }
    lemma_listed_ids_known(ids, s.checkpoints);
}

proof fn lemma_listed_ids_known(ids: Seq<Seq<char>>, cs: Map<Seq<char>, CheckpointView>)
    requires
        forall|i: int| 0 <= i < ids.len() ==> cs.contains_key(#[trigger] ids[i]),
        forall|k: Seq<char>| #[trigger] cs.contains_key(k) ==> cs[k].checkpoint_id@ == k,
    ensures
        listed_ids(known_checkpoints(ids, cs)) == ids,
    decreases ids.len(),
{
    if ids.len() > 0 {
        let init = ids.drop_last();
        assert forall|i: int| 0 <= i < init.len() implies cs.contains_key(#[trigger] init[i]) by {
            assert(init[i] == ids[i]);
        }
        lemma_listed_ids_known(init, cs);
        assert(cs.contains_key(ids[ids.len() - 1]));
        let rest = known_checkpoints(init, cs);
        assert(listed_ids(rest.push(cs[ids.last()])) =~= listed_ids(rest).push(cs[ids.last()].checkpoint_id@));
        assert(ids =~= init.push(ids.last()));
    }
}

/// Listing after a checkpoint is recorded in a consistent store gives the
/// session's earlier checkpoints, all of them and in order, then the new one;
/// its ids are the earlier list followed by the new id.
pub proof fn listing_after_checkpoint_is_whole(s: SessionStateView, c: SessionCheckpointRecord)
    requires
        checkpoints_consistent(s),
        !checkpoint_order(s, c.session_id@).contains(c.checkpoint_id@),
    ensures
        ({
            let before = known_checkpoints(checkpoint_order(s, c.session_id@), s.checkpoints);
            let s2 = add_checkpoint(s, c);
            let after = known_checkpoints(checkpoint_order(s2, c.session_id@), s2.checkpoints);
            &&& listed_ids(before) == checkpoint_order(s, c.session_id@)
            &&& after == before.push(c@)
            &&& listed_ids(after) == checkpoint_order(s, c.session_id@).push(c.checkpoint_id@)
            &&& checkpoints_consistent(s2)
        }),
{
    listing_gives_every_checkpoint(s, c.session_id@);
    listing_after_checkpoint_appends_it(s, c);
    lemma_add_checkpoint_consistent(s, c);
    listing_gives_every_checkpoint(add_checkpoint(s, c), c.session_id@);
}

/// A checkpoint is listed, last, in its session's checkpoints, and the next
/// checkpoint of the session names it as its parent.
pub proof fn checkpoint_joins_its_session(s: SessionStateView, c: SessionCheckpointRecord)
    ensures
        checkpoint_order(add_checkpoint(s, c), c.session_id@).last() == c.checkpoint_id@,
        last_id(checkpoint_order(add_checkpoint(s, c), c.session_id@)) == Some(c.checkpoint_id@),
        add_checkpoint(s, c).checkpoints[c.checkpoint_id@] == c@,
{
}

proof fn lemma_known_checkpoints_other_key(ids: Seq<Seq<char>>, cs: Map<Seq<char>, CheckpointView>, k: Seq<char>, v: CheckpointView)
    requires
        !ids.contains(k),
    ensures
        known_checkpoints(ids, cs.insert(k, v)) == known_checkpoints(ids, cs),
    decreases ids.len(),
{
    if ids.len() > 0 {
        assert(ids.drop_last().contains(k) ==> ids.contains(k)) by {
            if ids.drop_last().contains(k) {
                let i = choose|i: int| 0 <= i < ids.drop_last().len() && ids.drop_last()[i] == k;
                assert(ids[i] == k);
            }
        }
        assert(ids.last() != k) by {
            assert(ids[ids.len() - 1] == ids.last());
        }
        lemma_known_checkpoints_other_key(ids.drop_last(), cs, k, v);
    }
}

/// What a read gives back of a write: listing a session's checkpoints after
/// a new checkpoint joins it gives the earlier ones, in order, followed by
/// the new one, when its id is new to the session.
pub proof fn listing_after_checkpoint_appends_it(s: SessionStateView, c: SessionCheckpointRecord)
    requires
        !checkpoint_order(s, c.session_id@).contains(c.checkpoint_id@),
    ensures
        checkpoint_order(add_checkpoint(s, c), c.session_id@) == checkpoint_order(s, c.session_id@).push(
            c.checkpoint_id@,
        ),
        known_checkpoints(checkpoint_order(add_checkpoint(s, c), c.session_id@), add_checkpoint(s, c).checkpoints)
            == known_checkpoints(checkpoint_order(s, c.session_id@), s.checkpoints).push(c@),
{
    let ids = checkpoint_order(s, c.session_id@);
    let after = ids.push(c.checkpoint_id@);
    assert(after.drop_last() =~= ids);
    lemma_known_checkpoints_other_key(ids, s.checkpoints, c.checkpoint_id@, c@);
}

/// A checkpoint without an expiry can always be restored once recorded.
pub proof fn unexpiring_checkpoint_restores(s: SessionStateView, c: SessionCheckpointRecord, now: i64)
    requires
        c.expires_at is None,
    ensures
        add_checkpoint(s, c).checkpoints.contains_key(c.checkpoint_id@),
        !checkpoint_expired(add_checkpoint(s, c).checkpoints[c.checkpoint_id@], now),
{
}


proof fn lemma_insert_by_time_contains(sorted: Seq<SessionCheckpointRecord>, x: SessionCheckpointRecord, y: SessionCheckpointRecord)
    ensures
        insert_by_time(sorted, x).contains(y) <==> (sorted.contains(y) || y == x),
    decreases sorted.len(),
{
    broadcast use vstd::seq_lib::lemma_seq_contains_after_push;

    if sorted.len() == 0 {
        assert(seq![x][0] == x);
    } else if sorted.last().created_at <= x.created_at {
    } else {
        let init = sorted.drop_last();
        lemma_insert_by_time_contains(init, x, y);
        assert(sorted =~= init.push(sorted.last()));
    }
}

proof fn lemma_sorted_by_time_contains(s: Seq<SessionCheckpointRecord>, y: SessionCheckpointRecord)
    ensures
        sorted_by_time(s).contains(y) <==> s.contains(y),
    decreases s.len(),
{
    broadcast use vstd::seq_lib::lemma_seq_contains_after_push;

    if s.len() > 0 {
        lemma_sorted_by_time_contains(s.drop_last(), y);
        lemma_insert_by_time_contains(sorted_by_time(s.drop_last()), s.last(), y);
        assert(s =~= s.drop_last().push(s.last()));
    }
}

proof fn lemma_added_checkpoint_kept(s: SessionStateView, cs: Seq<SessionCheckpointRecord>, c: SessionCheckpointRecord)
    requires
        cs.contains(c),
        forall|x: SessionCheckpointRecord| cs.contains(x) && x.checkpoint_id@ == c.checkpoint_id@ ==> x@ == c@,
    ensures
        add_checkpoints(s, cs).checkpoints.contains_key(c.checkpoint_id@),
        add_checkpoints(s, cs).checkpoints[c.checkpoint_id@] == c@,
    decreases cs.len(),
{
    broadcast use vstd::seq_lib::lemma_seq_contains_after_push;

    let init = cs.drop_last();
    assert(cs =~= init.push(cs.last()));
    if cs.last().checkpoint_id@ == c.checkpoint_id@ {
        assert(cs.contains(cs.last()));
    } else {
        assert(init.contains(c));
        assert forall|x: SessionCheckpointRecord| init.contains(x) && x.checkpoint_id@ == c.checkpoint_id@ implies x@
            == c@ by {
            let k = choose|k: int| 0 <= k < init.len() && init[k] == x;
            assert(cs[k] == x);
            assert(cs.contains(x));
        }
        lemma_added_checkpoint_kept(s, init, c);
    }
}

/// A store rebuilt from its persisted records holds every persisted
/// checkpoint, when no two of them share an id.
pub proof fn persisted_checkpoints_survive_rebuild(
    sessions: Seq<AgentSessionRecord>,
    checkpoints: Seq<SessionCheckpointRecord>,
    c: SessionCheckpointRecord,
)
    requires
        checkpoints.contains(c),
        forall|i: int, j: int|
            0 <= i < checkpoints.len() && 0 <= j < checkpoints.len() && #[trigger] checkpoints[i].checkpoint_id@
                == #[trigger] checkpoints[j].checkpoint_id@ ==> i == j,
    ensures
        rebuilt_state(sessions, sorted_by_time(checkpoints)).checkpoints.contains_key(c.checkpoint_id@),
        rebuilt_state(sessions, sorted_by_time(checkpoints)).checkpoints[c.checkpoint_id@] == c@,
{
    let sorted = sorted_by_time(checkpoints);
    lemma_sorted_by_time_contains(checkpoints, c);
    assert forall|x: SessionCheckpointRecord| sorted.contains(x) && x.checkpoint_id@ == c.checkpoint_id@ implies x@
        == c@ by {
        lemma_sorted_by_time_contains(checkpoints, x);
        let i = choose|i: int| 0 <= i < checkpoints.len() && checkpoints[i] == x;
        let j = choose|j: int| 0 <= j < checkpoints.len() && checkpoints[j] == c;
        assert(checkpoints[i].checkpoint_id@ == checkpoints[j].checkpoint_id@);
    }
    lemma_added_checkpoint_kept(add_sessions(empty_state(), sessions), sorted, c);
}

} // verus!
