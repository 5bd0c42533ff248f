use keytweak::sidecar::{generate_id, IdGenerator};

#[test]
fn generate_id_is_unique() {
    let mut ids = IdGenerator::new();
    let id1 = generate_id(&mut ids);
    let id2 = generate_id(&mut ids);
    assert_ne!(id1, id2);
}

#[test]
fn generate_id_includes_timestamp() {
    let mut ids = IdGenerator::new();
    let id = generate_id(&mut ids);
    let ts_part = id >> 20;
    assert!(ts_part > 0);
}

use keytweak::protocol::Response;
use keytweak::sidecar::{
    supervise, translate_result, ChildStatus, RestartBackoff, SidecarErrorType, SidecarState,
    SupervisorStep, WaitOutcome,
};

fn empty_response() -> Response {
    Response {
        id: None,
        response_type: None,
        translated: None,
        ready: None,
        capabilities: None,
        languages: None,
        protocol_version: None,
        error: None,
        reason: None,
    }
}

#[test]
fn restart_backoff_doubles_and_gives_up() {
    let mut b = RestartBackoff::new();
    assert_eq!(supervise(&b, ChildStatus::Running), SupervisorStep::Wait);
    assert_eq!(supervise(&b, ChildStatus::Exited), SupervisorStep::RestartAfter(1000));
    let mut delays = Vec::new();
    while !b.gives_up() {
        b.on_failure();
        delays.push(b.delay_ms);
    }
    assert_eq!(delays, vec![2000, 4000, 8000, 16000, 32000]);
    assert_eq!(supervise(&b, ChildStatus::Missing), SupervisorStep::GiveUp);
    b.on_success();
    assert_eq!(b, RestartBackoff::new());
}

#[test]
fn handshake_and_responses_reach_their_waiters() {
    let mut s: SidecarState<&str> = SidecarState::new(0);
    assert_eq!(
        s.check_translate(),
        Err(SidecarErrorType::NotReady("models not loaded".to_string()))
    );
    s.begin_spawn("init", 10);
    let mut init = empty_response();
    init.response_type = Some("init".to_string());
    init.ready = Some(true);
    init.languages = Some(vec!["en".to_string(), "ru".to_string()]);
    assert_eq!(s.handle_response(&init, 20), Some("init"));
    assert!(s.ready);
    assert_eq!(s.languages, vec!["en".to_string(), "ru".to_string()]);
    assert_eq!(s.check_translate(), Ok(()));
    s.register(42, "request 42", 30);
    let mut answer = empty_response();
    answer.id = Some(42);
    answer.translated = Some("Привет".to_string());
    assert_eq!(s.handle_response(&answer, 40), Some("request 42"));
    assert_eq!(s.handle_response(&answer, 41), None);
    let mut shutdown = empty_response();
    shutdown.response_type = Some("shutdown".to_string());
    assert_eq!(s.handle_response(&shutdown, 50), None);
    assert!(!s.ready);
}

#[test]
fn handshake_with_another_version_fails() {
    let mut s: SidecarState<()> = SidecarState::new(0);
    let mut init = empty_response();
    init.protocol_version = Some("2.0".to_string());
    assert_eq!(
        s.finish_init(&init, 5),
        Err(SidecarErrorType::ProtocolVersionMismatch("Expected 1.0, got 2.0".to_string()))
    );
}

#[test]
fn translation_outcomes() {
    let mut ok = empty_response();
    ok.translated = Some("Привет".to_string());
    assert_eq!(translate_result(WaitOutcome::Answered(Ok(ok))), Ok("Привет".to_string()));
    assert_eq!(
        translate_result(WaitOutcome::Answered(Ok(empty_response()))),
        Err(SidecarErrorType::Sidecar("no translated field in response".to_string()))
    );
    assert_eq!(
        translate_result(WaitOutcome::Closed),
        Err(SidecarErrorType::Crashed { retryable: true })
    );
    assert_eq!(
        translate_result(WaitOutcome::TimedOut),
        Err(SidecarErrorType::Timeout("translate".to_string()))
    );
}
