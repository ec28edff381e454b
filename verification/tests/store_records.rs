use copilot_switch::errors::SwitchError;
use copilot_switch::models::{GitHubProvider, GitHubUser};
use copilot_switch::orchestrate::{adopt_active, build_identity, profile_outcome, switch_provider};
use copilot_switch::store::ProviderStore;

fn rec(id: &str, token: &str, gid: i64, created: i64) -> GitHubProvider {
    GitHubProvider::new(
        id.to_string(),
        format!("user-{}", gid),
        token.to_string(),
        None,
        None,
        gid,
        created,
        None,
    )
}

fn user(id: i64, login: &str) -> GitHubUser {
    GitHubUser { id, login: login.to_string(), name: None, email: None, avatar_url: None }
}

#[test]
fn list_is_newest_first() {
    let mut store = ProviderStore::new();
    assert!(store.insert(rec("a", "t1", 1, 100)).is_ok());
    assert!(store.insert(rec("b", "t2", 2, 300)).is_ok());
    assert!(store.insert(rec("c", "t3", 3, 200)).is_ok());
    let ids: Vec<String> = store.list_providers().iter().map(|p| p.id.clone()).collect();
    assert_eq!(ids, vec!["b".to_string(), "c".to_string(), "a".to_string()]);
}

#[test]
fn insert_conflicts_on_known_remote_id() {
    let mut store = ProviderStore::new();
    assert!(store.insert(rec("a", "t1", 7, 100)).is_ok());
    let r = store.insert(rec("b", "t2", 7, 200));
    assert!(matches!(r, Err(SwitchError::Conflict(7))));
    assert_eq!(store.list_providers().len(), 1);
}

#[test]
fn insert_rejects_a_reused_record_id() {
    let mut store = ProviderStore::new();
    assert!(store.insert(rec("a", "t1", 1, 100)).is_ok());
    let r = store.insert(rec("a", "t2", 2, 200));
    assert!(matches!(r, Err(SwitchError::Storage(_))));
    assert_eq!(store.list_providers().len(), 1);
}

#[test]
fn upsert_twice_keeps_one_record_with_second_token() {
    let mut store = ProviderStore::new();
    assert!(store.upsert_by_remote_id(rec("a", "first", 7, 100)).is_ok());
    assert!(store.upsert_by_remote_id(rec("b", "second", 7, 200)).is_ok());
    let recs = store.list_providers();
    assert_eq!(recs.len(), 1);
    assert_eq!(recs[0].access_token, "second");
    // the original id and creation time survive the refresh
    assert_eq!(recs[0].id, "a");
    assert_eq!(recs[0].created_at, 100);
    assert_eq!(recs[0].github_id, 7);
}

#[test]
fn delete_is_idempotent() {
    let mut store = ProviderStore::new();
    assert!(store.insert(rec("a", "t1", 1, 100)).is_ok());
    let key = "a".to_string();
    store.delete_provider(&key);
    assert_eq!(store.list_providers().len(), 0);
    store.delete_provider(&key);
    assert_eq!(store.list_providers().len(), 0);
}

#[test]
fn touch_updates_last_used_and_returns_the_record() {
    let mut store = ProviderStore::new();
    assert!(store.insert(rec("a", "t1", 1, 100)).is_ok());
    let key = "a".to_string();
    match store.touch_last_used(&key, 555) {
        Ok(p) => {
            assert_eq!(p.last_used_at, Some(555));
            assert_eq!(p.id, "a");
        }
        Err(_) => panic!("touch should succeed"),
    }
    assert_eq!(store.list_providers()[0].last_used_at, Some(555));
}

#[test]
fn touch_of_a_missing_id_is_not_found() {
    let mut store = ProviderStore::new();
    let key = "zz".to_string();
    match store.touch_last_used(&key, 555) {
        Err(SwitchError::NotFound(m)) => assert_eq!(m, "zz"),
        _ => panic!("expected NotFound"),
    }
}

#[test]
fn switch_plans_with_the_record_token_then_marks_it_used() {
    let mut store = ProviderStore::new();
    assert!(store.insert(rec("a", "tokA", 1, 100)).is_ok());
    let files = vec![Some("{}".to_string()), None];
    let key = "a".to_string();
    let plan = match switch_provider(&mut store, &key, &files, 999) {
        Ok(p) => p,
        Err(_) => panic!("switch should succeed"),
    };
    assert_eq!(plan.len(), 2);
    let v: serde_json::Value = serde_json::from_str(plan[0].as_ref().unwrap()).unwrap();
    assert_eq!(v["github-copilot"]["access"], "tokA");
    assert!(plan[1].is_none());
    assert_eq!(store.list_providers()[0].last_used_at, Some(999));
}

#[test]
fn switch_to_a_missing_id_is_not_found() {
    let mut store = ProviderStore::new();
    let files = vec![Some("{}".to_string())];
    let key = "missing".to_string();
    match switch_provider(&mut store, &key, &files, 1) {
        Err(SwitchError::NotFound(m)) => assert_eq!(m, "missing"),
        _ => panic!("expected NotFound"),
    }
}

#[test]
fn adopting_an_active_session_upserts_by_remote_id() {
    let mut store = ProviderStore::new();
    assert!(adopt_active(&mut store, &user(9, "octo"), "tokX".to_string()).is_ok());
    assert_eq!(store.list_providers().len(), 1);
    assert_eq!(store.list_providers()[0].access_token, "tokX");
    assert!(adopt_active(&mut store, &user(9, "octo2"), "tokY".to_string()).is_ok());
    let recs = store.list_providers();
    assert_eq!(recs.len(), 1);
    assert_eq!(recs[0].access_token, "tokY");
    assert_eq!(recs[0].name, "octo2");
}

#[test]
fn built_identity_carries_the_profile() {
    let u = GitHubUser {
        id: 4,
        login: "me".to_string(),
        name: None,
        email: Some("me@example.com".to_string()),
        avatar_url: Some("https://example.com/a.png".to_string()),
    };
    let p = build_identity(&u, "tok".to_string());
    assert_eq!(p.id.len(), 36);
    assert_eq!(p.name, "me");
    assert_eq!(p.access_token, "tok");
    assert_eq!(p.email, Some("me@example.com".to_string()));
    assert_eq!(p.avatar_url, Some("https://example.com/a.png".to_string()));
    assert_eq!(p.github_id, 4);
    assert_eq!(p.last_used_at, Some(p.created_at));
}

#[test]
fn profile_outcome_reads_the_reply() {
    assert!(matches!(profile_outcome(200, Some(user(1, "a"))), Ok(_)));
    assert!(matches!(
        profile_outcome(404, Some(user(1, "a"))),
        Err(SwitchError::Protocol(copilot_switch::errors::ProtocolFault::HttpStatus(404)))
    ));
    assert!(matches!(
        profile_outcome(200, None),
        Err(SwitchError::Protocol(copilot_switch::errors::ProtocolFault::MalformedBody))
    ));
}
