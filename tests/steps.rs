use conjure_runtime::classify::{DispatchError, ResponseHead};
use conjure_runtime::dispatch::{Action, ClientConfig, Request, State, Step};
use conjure_runtime::proxy::ProxyConfig;

fn state(idempotent: bool, max_num_retries: u32, slot_ms: u64) -> State {
    State::new(
        Request {
            method: "GET".to_string(),
            pattern: "/t".to_string(),
            params: vec![],
            headers: vec![],
            idempotent,
        },
        ClientConfig {
            max_num_retries,
            backoff_slot_ms: slot_ms,
            propagate_qos_errors: false,
            propagate_service_errors: false,
            proxy: ProxyConfig::Direct,
        },
    )
}

fn status(code: u16) -> Result<ResponseHead, DispatchError> {
    Ok(ResponseHead { status: code, retry_after: None })
}

#[test]
fn step_success_finishes() {
    let mut s = state(true, 3, 10);
    assert_eq!(s.after_attempt(&status(200), false), Step { prev_failed: false, action: Action::Succeed });
    assert_eq!(s.attempt, 0);
}

#[test]
fn step_503_backs_off_then_succeeds() {
    let mut s = state(true, 3, 10);
    let step = s.after_attempt(&status(503), false);
    assert!(step.prev_failed);
    match step.action {
        Action::Sleep(ms) => assert!(ms < 20),
        other => panic!("unexpected {:?}", other),
    }
    assert_eq!(s.after_attempt(&status(200), false).action, Action::Succeed);
}

#[test]
fn step_429_waits_retry_after() {
    let mut s = state(true, 3, 10);
    let head = ResponseHead { status: 429, retry_after: Some("2".to_string()) };
    assert_eq!(s.after_attempt(&Ok(head), false), Step { prev_failed: false, action: Action::Sleep(2000) });
}

#[test]
fn step_non_idempotent_fails_with_transport_error() {
    let mut s = state(false, 3, 10);
    let step = s.after_attempt(&Err(DispatchError::Transport), false);
    assert_eq!(step, Step { prev_failed: true, action: Action::Fail(DispatchError::Transport) });
}

#[test]
fn step_unresettable_body_surfaces_unavailable() {
    let mut s = state(true, 3, 10);
    let step = s.after_attempt(&status(503), true);
    assert_eq!(
        step.action,
        Action::ResetBody { error: DispatchError::Unavailable, retry_after_secs: None }
    );
    let after = s.after_reset(false, DispatchError::Unavailable, None);
    assert_eq!(after, Step { prev_failed: false, action: Action::Fail(DispatchError::Unavailable) });
    let resumed = s.after_reset(true, DispatchError::Unavailable, Some(1));
    assert_eq!(resumed.action, Action::Sleep(1000));
}

#[test]
fn step_retries_exhausted_keep_last_error() {
    let mut s = state(true, 2, 10);
    assert!(matches!(s.after_attempt(&status(503), false).action, Action::Sleep(_)));
    assert_eq!(
        s.after_attempt(&Err(DispatchError::Transport), false).action,
        Action::Fail(DispatchError::Transport)
    );
}

#[test]
fn step_service_error_is_terminal() {
    let mut s = state(true, 3, 10);
    let step = s.after_attempt(&status(500), false);
    assert!(step.prev_failed);
    assert_eq!(
        step.action,
        Action::Fail(DispatchError::Service { status: 500, expose_details: false })
    );
    assert_eq!(s.attempt, 0);
}

#[test]
fn step_deadline_beats_retries_backoff_bounded() {
    let mut s = state(true, 1000, 1000);
    for k in 1..=5u32 {
        match s.after_attempt(&Err(DispatchError::Transport), false).action {
            Action::Sleep(ms) => assert!(ms < 1000u64 << k),
            other => panic!("unexpected {:?}", other),
        }
    }
}
