use copilot_switch::device::{run_poll, PollResult, PollState, PollStep};
use copilot_switch::errors::{ProtocolFault, SwitchError};
use copilot_switch::models::{AccessTokenResponse, DeviceCodeResponse, GitHubUser};
use copilot_switch::orchestrate::complete_link;
use copilot_switch::store::ProviderStore;

fn resp(token: Option<&str>, error: Option<&str>) -> AccessTokenResponse {
    AccessTokenResponse {
        access_token: token.map(|s| s.to_string()),
        token_type: None,
        scope: None,
        error: error.map(|s| s.to_string()),
        error_description: None,
        error_uri: None,
    }
}

fn pending() -> AccessTokenResponse {
    resp(None, Some("authorization_pending"))
}

fn slow_down() -> AccessTokenResponse {
    resp(None, Some("slow_down"))
}

fn user(id: i64, login: &str) -> GitHubUser {
    GitHubUser {
        id,
        login: login.to_string(),
        name: None,
        email: Some(format!("{}@example.com", login)),
        avatar_url: None,
    }
}

#[test]
fn link_succeeds_on_third_poll() {
    // client_id "abc" requested a device code with interval 5, expires_in 15;
    // two pending polls, then the token arrives.
    let mut store = ProviderStore::new();
    let responses = vec![pending(), pending(), resp(Some("tok123"), None)];
    let profile: Result<GitHubUser, ProtocolFault> = Ok(user(42, "octo"));
    let files = vec![Some("{}".to_string())];
    let r = complete_link(&mut store, &responses, 5, 15, &profile, &files);
    let (p, plan) = match r {
        Ok(x) => x,
        Err(_) => panic!("link should succeed"),
    };
    assert_eq!(p.access_token, "tok123");
    assert_eq!(p.github_id, 42);
    assert_eq!(p.name, "octo");
    assert_eq!(p.last_used_at, Some(p.created_at));
    assert_eq!(store.list_providers().len(), 1);
    assert_eq!(plan.len(), 1);
    assert!(plan[0].is_some());
}

#[test]
fn link_expires_when_all_polls_pending() {
    // same setup, but the budget of floor(15 / 5) = 3 polls is spent on
    // pending responses.
    let mut store = ProviderStore::new();
    let responses = vec![pending(), pending(), pending()];
    let profile: Result<GitHubUser, ProtocolFault> = Ok(user(42, "octo"));
    let files = vec![Some("{}".to_string())];
    let r = complete_link(&mut store, &responses, 5, 15, &profile, &files);
    assert!(matches!(r, Err(SwitchError::Expired)));
    assert_eq!(store.list_providers().len(), 0);
}

#[test]
fn slow_down_never_spends_the_budget() {
    // budget 3: three pendings exhaust it however many slow_downs intervene.
    let responses = vec![pending(), slow_down(), pending(), slow_down(), pending()];
    let r = run_poll(&responses, 5, 15);
    assert!(matches!(r, PollResult::Failed(SwitchError::Expired)));
    // two pendings and two slow_downs leave budget for one more poll.
    let responses = vec![pending(), slow_down(), pending(), slow_down()];
    let r = run_poll(&responses, 5, 15);
    assert!(matches!(r, PollResult::NeedMore));
}

#[test]
fn token_short_circuits_despite_error_field() {
    let responses = vec![resp(Some("tok9"), Some("authorization_pending"))];
    match run_poll(&responses, 5, 15) {
        PollResult::Granted(t) => assert_eq!(t, "tok9"),
        _ => panic!("token must win"),
    }
}

#[test]
fn expired_token_code_fails_immediately() {
    let responses = vec![resp(None, Some("expired_token"))];
    let r = run_poll(&responses, 5, 15);
    assert!(matches!(r, PollResult::Failed(SwitchError::Expired)));
}

#[test]
fn access_denied_code_fails_immediately() {
    let responses = vec![resp(None, Some("access_denied"))];
    let r = run_poll(&responses, 5, 15);
    assert!(matches!(r, PollResult::Failed(SwitchError::AccessDenied)));
}

#[test]
fn unknown_error_code_is_a_protocol_error() {
    let responses = vec![resp(None, Some("incorrect_client_credentials"))];
    match run_poll(&responses, 5, 15) {
        PollResult::Failed(SwitchError::Protocol(ProtocolFault::ErrorCode(c))) => {
            assert_eq!(c, "incorrect_client_credentials");
        }
        _ => panic!("expected a protocol error with the code"),
    }
}

#[test]
fn pending_waits_one_interval_and_spends_budget() {
    let st = PollState::new(7, 70);
    assert_eq!(st.max_attempts, 10);
    match st.on_response(&pending()) {
        PollStep::Wait(st2, sleep) => {
            assert_eq!(sleep, 7);
            assert_eq!(st2.attempts_used, 1);
        }
        _ => panic!("pending must wait"),
    }
}

#[test]
fn slow_down_waits_five_seconds_longer() {
    let st = PollState::new(7, 70);
    match st.on_response(&slow_down()) {
        PollStep::Wait(st2, sleep) => {
            assert_eq!(sleep, 12);
            assert_eq!(st2.attempts_used, 0);
        }
        _ => panic!("slow_down must wait"),
    }
}

#[test]
fn zero_budget_expires_before_any_poll() {
    // expires_in shorter than one interval: floor(3 / 5) = 0 polls allowed.
    let responses = vec![resp(Some("tok"), None)];
    let r = run_poll(&responses, 5, 3);
    assert!(matches!(r, PollResult::Failed(SwitchError::Expired)));
}

#[test]
fn device_code_response_to_info_drops_the_secret() {
    let r = DeviceCodeResponse {
        device_code: "secret".to_string(),
        user_code: "ABCD-1234".to_string(),
        verification_uri: "https://github.com/login/device".to_string(),
        expires_in: 900,
        interval: 5,
    };
    let info = r.to_info();
    assert_eq!(info.user_code, "ABCD-1234");
    assert_eq!(info.verification_uri, "https://github.com/login/device");
    assert_eq!(info.expires_in, 900);
    assert_eq!(info.interval, 5);
}

#[test]
fn response_with_neither_token_nor_error_counts_as_pending() {
    let responses = vec![resp(None, None), resp(None, None), resp(None, None)];
    let r = run_poll(&responses, 5, 15);
    assert!(matches!(r, PollResult::Failed(SwitchError::Expired)));
}

#[test]
fn empty_token_is_not_a_grant() {
    // an empty access_token never enters the store, whose records always
    // carry a token; without an error code the poll stays pending
    let responses = vec![resp(Some(""), None)];
    let r = run_poll(&responses, 5, 15);
    assert!(matches!(r, PollResult::NeedMore));
}
