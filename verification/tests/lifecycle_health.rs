//! The lifecycle state machine, the idle policy, the default health
//! check decision, and the factory-facing data model.

use shuttle_service::error::Error;
use shuttle_service::health::{classify_probe, health_event, health_path, health_url, ProbeOutcome};
use shuttle_service::lifecycle::{run_events, step, Event, Idle, State, DEFAULT_IDLE_SECONDS};
use shuttle_service::metadata::{DeploymentMetadata, Environment, SecretBundle};

#[test]
fn default_policy_idles_after_thirty_seconds() {
    assert_eq!(Idle::default_policy(), Idle::DoIdle(30));
    assert_eq!(DEFAULT_IDLE_SECONDS, 30);
}

#[test]
fn happy_path_reaches_ready_then_terminates() {
    let policy = Idle::default_policy();
    let mut s = State::Created;
    s = step(&policy, s, Event::BindSucceeded);
    assert_eq!(s, State::Bound);
    s = step(&policy, s, Event::HealthCheckStarted);
    assert_eq!(s, State::HealthChecking);
    s = step(&policy, s, Event::HealthCheckPassed);
    assert_eq!(s, State::Ready);
    s = step(&policy, s, Event::ShutdownRequested);
    assert_eq!(s, State::ShuttingDown);
    s = step(&policy, s, Event::ShutdownComplete);
    assert_eq!(s, State::Terminated);
    // No state is re-enterable after Terminated.
    assert_eq!(step(&policy, s, Event::BindSucceeded), State::Terminated);
    assert_eq!(step(&policy, s, Event::InboundRequest), State::Terminated);
    assert_eq!(step(&policy, s, Event::ShutdownRequested), State::Terminated);
}

#[test]
fn bind_failure_is_fatal_startup_error() {
    let policy = Idle::default_policy();
    assert_eq!(step(&policy, State::Created, Event::BindFailed), State::Failed);
}

#[test]
fn do_idle_policy_suspends_and_resumes() {
    let policy = Idle::DoIdle(5);
    // Shorter silences change nothing.
    assert_eq!(step(&policy, State::Ready, Event::QuietFor(4)), State::Ready);
    assert_eq!(step(&policy, State::Active, Event::QuietFor(4)), State::Active);
    // Silence at or past the threshold suspends.
    assert_eq!(step(&policy, State::Ready, Event::QuietFor(5)), State::Idle);
    assert_eq!(step(&policy, State::Active, Event::QuietFor(7)), State::Idle);
    // The next inbound request resumes immediately.
    assert_eq!(step(&policy, State::Idle, Event::InboundRequest), State::Active);
}

#[test]
fn always_on_never_idles() {
    let policy = Idle::AlwaysOn;
    assert_eq!(step(&policy, State::Ready, Event::QuietFor(0)), State::Ready);
    assert_eq!(step(&policy, State::Ready, Event::QuietFor(100_000)), State::Ready);
    assert_eq!(step(&policy, State::Active, Event::QuietFor(u32::MAX)), State::Active);
}

#[test]
fn run_events_replays_a_whole_lifecycle() {
    let policy = Idle::DoIdle(10);
    let events = vec![
        Event::BindSucceeded,
        Event::HealthCheckStarted,
        Event::HealthCheckPassed,
        Event::QuietFor(10),
        Event::InboundRequest,
        Event::QuietFor(3),
        Event::ShutdownRequested,
        Event::ShutdownComplete,
    ];
    assert_eq!(run_events(&policy, State::Created, &events), State::Terminated);
    let quiet_life = vec![Event::QuietFor(u32::MAX), Event::QuietFor(u32::MAX)];
    assert_eq!(run_events(&Idle::AlwaysOn, State::Ready, &quiet_life), State::Ready);
    assert_eq!(run_events(&Idle::DoIdle(1), State::Ready, &quiet_life), State::Idle);
}

#[test]
fn health_path_and_url_are_well_known() {
    assert_eq!(health_path(), "/_shuttle/healthz");
    assert_eq!(health_url("127.0.0.1:8000"), "http://127.0.0.1:8000/_shuttle/healthz");
}

#[test]
fn status_200_yields_ready() {
    let policy = Idle::default_policy();
    let checked = classify_probe(ProbeOutcome::Status(200));
    assert!(checked.is_ok());
    let s = step(&policy, State::HealthChecking, health_event(&checked));
    assert_eq!(s, State::Ready);
}

#[test]
fn status_503_yields_failed_with_reason() {
    let policy = Idle::default_policy();
    let checked = classify_probe(ProbeOutcome::Status(503));
    match &checked {
        Err(Error::HealthCheckFailed(reason)) => assert_eq!(reason, "Health check unsuccessful"),
        _ => panic!("a non-2xx status must fail the health check"),
    }
    let s = step(&policy, State::HealthChecking, health_event(&checked));
    assert_eq!(s, State::Failed);
}

#[test]
fn refused_connection_yields_failed_with_transport_reason() {
    let policy = Idle::default_policy();
    let checked = classify_probe(ProbeOutcome::Unreachable("connection refused".to_string()));
    match &checked {
        Err(Error::HealthCheckFailed(reason)) => assert_eq!(reason, "connection refused"),
        _ => panic!("an unreachable endpoint must fail the health check"),
    }
    let s = step(&policy, State::HealthChecking, health_event(&checked));
    assert_eq!(s, State::Failed);
}

#[test]
fn boundary_statuses() {
    assert!(classify_probe(ProbeOutcome::Status(200)).is_ok());
    assert!(classify_probe(ProbeOutcome::Status(204)).is_ok());
    assert!(classify_probe(ProbeOutcome::Status(299)).is_ok());
    assert!(classify_probe(ProbeOutcome::Status(199)).is_err());
    assert!(classify_probe(ProbeOutcome::Status(300)).is_err());
    assert!(classify_probe(ProbeOutcome::Status(404)).is_err());
}

#[test]
fn metadata_reports_environment() {
    let local = DeploymentMetadata { env: Environment::Local, project_name: "demo".to_string() };
    let prod =
        DeploymentMetadata { env: Environment::Production, project_name: "demo".to_string() };
    assert!(local.is_local());
    assert!(!prod.is_local());
}

#[test]
fn secret_bundle_stores_and_looks_up() {
    let mut secrets = SecretBundle::new();
    assert!(secrets.get(&"API_KEY".to_string()).is_none());
    secrets.insert("API_KEY".to_string(), "SECRET-REDACTED".to_string());
    secrets.insert("OTHER".to_string(), "value".to_string());
    assert_eq!(secrets.get(&"API_KEY".to_string()), Some("SECRET-REDACTED".to_string()));
    assert_eq!(secrets.get(&"OTHER".to_string()), Some("value".to_string()));
    assert!(secrets.get(&"MISSING".to_string()).is_none());
}
