use hypertide::session::{
    AgentSessionRecord, CheckpointAsset, CreateCheckpointInput, CreateSessionInput, SessionCheckpointRecord,
    SessionError, SessionManager,
};

fn session_input() -> CreateSessionInput {
    CreateSessionInput {
        repo_id: "repo-agent".to_string(),
        branch: "main".to_string(),
        base_changeset_id: Some("ROOT".to_string()),
        workspace_root: "E:/workspace/game".to_string(),
        actor_id: "agent-a".to_string(),
        intent_id: Some("intent-1".to_string()),
        task_id: Some("task-1".to_string()),
        agent_run_id: Some("run-1".to_string()),
        trigger_reason: Some("agent_save".to_string()),
        risk_level: Some("local".to_string()),
        semantic_summary: Some("saving agent progress".to_string()),
        expires_at: None,
    }
}

#[test]
fn creates_checkpoint_and_lists_it_for_session() {
    let mut manager = SessionManager::new();
    let session = manager.create_session(session_input());

    let checkpoint = manager
        .create_checkpoint(CreateCheckpointInput {
            session_id: session.session_id.clone(),
            actor_id: "agent-a".to_string(),
            trigger_reason: "manual_checkpoint".to_string(),
            semantic_summary: Some("inventory draft checkpoint".to_string()),
            expires_at: None,
            assets: vec![CheckpointAsset {
                asset_id: "asset-inventory".to_string(),
                path: "Assets/inventory.json".to_string(),
                blob_hash: "hash-inventory".to_string(),
            }],
        })
        .expect("checkpoint");

    assert_eq!(checkpoint.parent_checkpoint_id, None);
    assert_eq!(checkpoint.base_changeset_id.as_deref(), Some("ROOT"));

    let page = manager.list_checkpoints(&session.session_id).expect("checkpoint page");
    assert_eq!(page.items.len(), 1);
    assert_eq!(page.items[0].checkpoint_id, checkpoint.checkpoint_id);

    let snapshot = manager.checkpoint_snapshot(&checkpoint.checkpoint_id).expect("snapshot");
    assert_eq!(snapshot.assets.len(), 1);
    assert_eq!(snapshot.assets[0].path, "Assets/inventory.json");
}

#[test]
fn rebuilds_session_state_from_persisted_records() {
    let created_at = 1_700_000_000_000i64;
    let session = AgentSessionRecord {
        session_id: "session-1".to_string(),
        repo_id: "repo-agent".to_string(),
        branch: "main".to_string(),
        base_changeset_id: Some("ROOT".to_string()),
        workspace_root: "E:/workspace/game".to_string(),
        actor_id: "agent-a".to_string(),
        intent_id: None,
        task_id: None,
        agent_run_id: None,
        trigger_reason: Some("agent_session".to_string()),
        risk_level: None,
        semantic_summary: None,
        expires_at: None,
        created_at,
    };
    let checkpoint = SessionCheckpointRecord {
        checkpoint_id: "checkpoint-1".to_string(),
        session_id: session.session_id.clone(),
        repo_id: session.repo_id.clone(),
        branch: session.branch.clone(),
        base_changeset_id: session.base_changeset_id.clone(),
        parent_checkpoint_id: None,
        workspace_root: session.workspace_root.clone(),
        actor_id: session.actor_id.clone(),
        trigger_reason: "manual_checkpoint".to_string(),
        intent_id: None,
        task_id: None,
        agent_run_id: None,
        risk_level: None,
        semantic_summary: None,
        expires_at: None,
        created_at,
        assets: vec![CheckpointAsset {
            asset_id: "asset-a".to_string(),
            path: "Assets/a.txt".to_string(),
            blob_hash: "hash-a".to_string(),
        }],
    };

    let manager = SessionManager::from_records(vec![session], vec![checkpoint]);
    let snapshot = manager
        .checkpoint_snapshot("checkpoint-1")
        .expect("checkpoint must survive manager rebuild");

    assert_eq!(snapshot.session_id, "session-1");
    assert_eq!(snapshot.assets[0].blob_hash, "hash-a");
}

fn checkpoint_input(session_id: &str, summary: Option<&str>, expires_at: Option<i64>) -> CreateCheckpointInput {
    CreateCheckpointInput {
        session_id: session_id.to_string(),
        actor_id: "agent-b".to_string(),
        trigger_reason: "auto".to_string(),
        semantic_summary: summary.map(|s| s.to_string()),
        expires_at,
        assets: vec![],
    }
}

#[test]
fn second_checkpoint_names_the_first_as_parent() {
    let mut manager = SessionManager::new();
    let session = manager.create_session(session_input());
    let first = manager.create_checkpoint(checkpoint_input(&session.session_id, None, None)).expect("first");
    let second = manager.create_checkpoint(checkpoint_input(&session.session_id, None, None)).expect("second");
    assert_eq!(second.parent_checkpoint_id, Some(first.checkpoint_id.clone()));
    assert_eq!(first.semantic_summary.as_deref(), Some("saving agent progress"));
    assert_eq!(second.intent_id.as_deref(), Some("intent-1"));
    let page = manager.list_checkpoints(&session.session_id).expect("page");
    let ids: Vec<String> = page.items.iter().map(|c| c.checkpoint_id.clone()).collect();
    assert_eq!(ids, vec![first.checkpoint_id, second.checkpoint_id]);
}

#[test]
fn checkpoint_of_unknown_session_is_refused() {
    let mut manager = SessionManager::new();
    let err = manager.create_checkpoint(checkpoint_input("ghost", None, None)).unwrap_err();
    assert_eq!(err, SessionError::SessionNotFound { session_id: "ghost".to_string() });
    assert_eq!(
        manager.list_checkpoints("ghost").unwrap_err(),
        SessionError::SessionNotFound { session_id: "ghost".to_string() }
    );
    assert_eq!(
        manager.checkpoint_snapshot("ghost").unwrap_err(),
        SessionError::CheckpointNotFound { checkpoint_id: "ghost".to_string() }
    );
}

#[test]
fn expired_checkpoint_is_refused() {
    let mut manager = SessionManager::new();
    let session = manager.create_session(session_input());
    let c = manager
        .create_checkpoint(checkpoint_input(&session.session_id, Some("own"), Some(1_000)))
        .expect("checkpoint");
    assert_eq!(c.semantic_summary.as_deref(), Some("own"));
    assert_eq!(
        manager.checkpoint_snapshot(&c.checkpoint_id).unwrap_err(),
        SessionError::CheckpointExpired { checkpoint_id: c.checkpoint_id.clone() }
    );
    assert!(manager.checkpoint_snapshot_at(&c.checkpoint_id, 999).is_ok());
    assert!(manager.checkpoint_snapshot_at(&c.checkpoint_id, 1_000).is_err());
}

#[test]
fn rebuild_orders_checkpoints_by_time() {
    let make = |id: &str, at: i64| SessionCheckpointRecord {
        checkpoint_id: id.to_string(),
        session_id: "s".to_string(),
        repo_id: "r".to_string(),
        branch: "main".to_string(),
        base_changeset_id: None,
        parent_checkpoint_id: None,
        workspace_root: "/w".to_string(),
        actor_id: "a".to_string(),
        trigger_reason: "t".to_string(),
        intent_id: None,
        task_id: None,
        agent_run_id: None,
        risk_level: None,
        semantic_summary: None,
        expires_at: None,
        created_at: at,
        assets: vec![],
    };
    let session = AgentSessionRecord {
        session_id: "s".to_string(),
        repo_id: "r".to_string(),
        branch: "main".to_string(),
        base_changeset_id: None,
        workspace_root: "/w".to_string(),
        actor_id: "a".to_string(),
        intent_id: None,
        task_id: None,
        agent_run_id: None,
        trigger_reason: None,
        risk_level: None,
        semantic_summary: None,
        expires_at: None,
        created_at: 0,
    };
    let manager = SessionManager::from_records(vec![session], vec![make("late", 30), make("early", 10), make("mid", 20), make("mid2", 20)]);
    let page = manager.list_checkpoints("s").expect("page");
    let ids: Vec<String> = page.items.iter().map(|c| c.checkpoint_id.clone()).collect();
    assert_eq!(ids, vec!["early", "mid", "mid2", "late"]);
}

#[test]
fn listing_after_each_checkpoint_gives_all_of_them_in_order() {
    let mut manager = SessionManager::new();
    let session = manager.create_session(session_input());
    let mut ids: Vec<String> = Vec::new();
    for reason in ["first", "second", "third"] {
        let c = manager
            .create_checkpoint(CreateCheckpointInput {
                session_id: session.session_id.clone(),
                actor_id: "agent-a".to_string(),
                trigger_reason: reason.to_string(),
                semantic_summary: None,
                expires_at: None,
                assets: vec![],
            })
            .expect("checkpoint");
        assert_eq!(c.parent_checkpoint_id, ids.last().cloned());
        ids.push(c.checkpoint_id.clone());
        let page = manager.list_checkpoints(&session.session_id).expect("page");
        let listed: Vec<String> = page.items.iter().map(|x| x.checkpoint_id.clone()).collect();
        assert_eq!(listed, ids);
    }
}
