use control_plane::application::{Application, NewApplication};
use control_plane::buildlog::{reduce_build_log, LogChunk};
use control_plane::errors::LifecycleError;
use control_plane::service::{NewService, Service};
use control_plane::store::Store;

fn demo_store() -> Store {
    let mut store = Store::new();
    Application::insert(
        NewApplication {
            name: "Demo".to_string(),
            repository: "https://git/x".to_string(),
            branch: "main".to_string(),
        },
        &mut store,
    );
    Service::insert(
        NewService {
            application_id: 1,
            name: "web".to_string(),
            image: "web".to_string(),
            build_context: "backend".to_string(),
        },
        &mut store,
    )
    .unwrap();
    store
}

#[test]
fn build_plan_derives_remote_and_tag() {
    let store = demo_store();
    let svc = Service::by_id(1, &store).unwrap();
    let request = svc.build_plan(&store).unwrap();
    assert_eq!(request.remote, "https://git/x#main:backend");
    assert_eq!(request.tag, "demo-web");
    assert!(request.rm);
}

#[test]
fn build_plan_missing_application_is_not_found() {
    let store = demo_store();
    let mut svc = Service::by_id(1, &store).unwrap();
    svc.application_id = 42;
    let err = svc.build_plan(&store).unwrap_err();
    assert_eq!(err, LifecycleError::NotFound { id: 42 });
}

#[test]
fn build_scenario_returns_backend_log() {
    let store = demo_store();
    let svc = Service::by_id(1, &store).unwrap();
    let request = svc.build_plan(&store).unwrap();
    assert_eq!(request.tag, "demo-web");
    let chunks = vec![LogChunk { ok: true, text: Some("Step 1".to_string()) }];
    assert_eq!(reduce_build_log(svc.id, &chunks).unwrap(), "Step 1");
}

#[test]
fn build_twice_is_idempotent() {
    let store = demo_store();
    let svc = Service::by_id(1, &store).unwrap();
    let first_request = svc.build_plan(&store).unwrap();
    let first_log = reduce_build_log(
        svc.id,
        &vec![LogChunk { ok: true, text: Some("Step 1".to_string()) }],
    )
    .unwrap();
    let second_request = svc.build_plan(&store).unwrap();
    let second_log = reduce_build_log(
        svc.id,
        &vec![LogChunk { ok: true, text: Some("Step 1".to_string()) }],
    )
    .unwrap();
    assert_eq!(first_request.remote, second_request.remote);
    assert_eq!(first_request.tag, second_request.tag);
    assert_eq!(first_log, "Step 1");
    assert_eq!(second_log, "Step 1");
    assert_eq!(Service::by_id(1, &store).unwrap().container_id, None);
}

#[test]
fn build_never_changes_running_state() {
    let mut store = demo_store();
    Service::start_commit(1, "c-1", &mut store).unwrap();
    let svc = Service::by_id(1, &store).unwrap();
    svc.build_plan(&store).unwrap();
    assert_eq!(
        Service::by_id(1, &store).unwrap().container_id,
        Some("c-1".to_string())
    );
}

#[test]
fn start_plan_fresh_returns_tag() {
    let store = demo_store();
    let svc = Service::by_id(1, &store).unwrap();
    assert_eq!(svc.start_plan(&store).unwrap(), "demo-web");
}

#[test]
fn start_plan_running_is_conflict_without_backend_work() {
    let mut store = demo_store();
    Service::start_commit(1, "c-1", &mut store).unwrap();
    let svc = Service::by_id(1, &store).unwrap();
    let err = svc.start_plan(&store).unwrap_err();
    assert_eq!(err, LifecycleError::Conflict { id: 1 });
    assert_eq!(
        Service::by_id(1, &store).unwrap().container_id,
        Some("c-1".to_string())
    );
}

#[test]
fn start_plan_missing_application_is_not_found() {
    let store = demo_store();
    let mut svc = Service::by_id(1, &store).unwrap();
    svc.application_id = 9;
    let err = svc.start_plan(&store).unwrap_err();
    assert_eq!(err, LifecycleError::NotFound { id: 9 });
}

#[test]
fn start_commit_persists_new_container_id() {
    let mut store = demo_store();
    let granted = Service::start_commit(1, "c-55", &mut store).unwrap();
    assert_eq!(granted, "c-55");
    assert_eq!(
        Service::by_id(1, &store).unwrap().container_id,
        Some("c-55".to_string())
    );
}

#[test]
fn start_then_stop_round_trip() {
    let mut store = demo_store();
    let started = Service::start_commit(1, "c-7", &mut store).unwrap();
    assert_eq!(started, "c-7");
    let svc = Service::by_id(1, &store).unwrap();
    let planned = svc.stop_plan().unwrap();
    assert_eq!(planned, "c-7");
    let stopped = Service::stop_commit(1, &planned, &mut store).unwrap();
    assert_eq!(stopped, "c-7");
    assert_eq!(Service::by_id(1, &store).unwrap().container_id, None);
}

#[test]
fn stop_plan_not_running_is_conflict() {
    let store = demo_store();
    let svc = Service::by_id(1, &store).unwrap();
    let err = svc.stop_plan().unwrap_err();
    assert_eq!(err, LifecycleError::Conflict { id: 1 });
}

#[test]
fn concurrent_starts_grant_exactly_once() {
    let mut store = demo_store();
    // Two racing starts both read the service while it was still fresh.
    let first_copy = Service::by_id(1, &store).unwrap();
    let second_copy = Service::by_id(1, &store).unwrap();
    assert!(first_copy.start_plan(&store).is_ok());
    assert!(second_copy.start_plan(&store).is_ok());
    // Both created a container; the conditional update grants only one.
    let winner = Service::start_commit(1, "c-a", &mut store);
    let loser = Service::start_commit(1, "c-b", &mut store);
    assert_eq!(winner.unwrap(), "c-a");
    assert_eq!(loser.unwrap_err(), LifecycleError::Conflict { id: 1 });
    assert_eq!(
        Service::by_id(1, &store).unwrap().container_id,
        Some("c-a".to_string())
    );
}

#[test]
fn start_commit_on_vanished_service_is_inconsistent_state() {
    let mut store = demo_store();
    Service::delete(1, &mut store).unwrap();
    let err = Service::start_commit(1, "c-1", &mut store).unwrap_err();
    assert_eq!(err, LifecycleError::InconsistentState { id: 1 });
}

#[test]
fn stop_commit_with_mismatched_container_is_inconsistent_state() {
    let mut store = demo_store();
    Service::start_commit(1, "c-1", &mut store).unwrap();
    let err = Service::stop_commit(1, "c-2", &mut store).unwrap_err();
    assert_eq!(err, LifecycleError::InconsistentState { id: 1 });
    assert_eq!(
        Service::by_id(1, &store).unwrap().container_id,
        Some("c-1".to_string())
    );
}

#[test]
fn stop_commit_on_not_running_service_is_inconsistent_state() {
    let mut store = demo_store();
    let err = Service::stop_commit(1, "c-1", &mut store).unwrap_err();
    assert_eq!(err, LifecycleError::InconsistentState { id: 1 });
}
