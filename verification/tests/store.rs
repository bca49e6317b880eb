use control_plane::application::{Application, NewApplication};
use control_plane::errors::LifecycleError;
use control_plane::service::{NewService, Service};
use control_plane::store::Store;

fn new_application(name: &str) -> NewApplication {
    NewApplication {
        name: name.to_string(),
        repository: "https://git/x".to_string(),
        branch: "main".to_string(),
    }
}

fn new_service(application_id: i32, name: &str) -> NewService {
    NewService {
        application_id,
        name: name.to_string(),
        image: name.to_string(),
        build_context: "backend".to_string(),
    }
}

#[test]
fn insert_application_assigns_ids_and_timestamps() {
    let mut store = Store::new();
    let first = Application::insert(new_application("One"), &mut store);
    let second = Application::insert(new_application("Two"), &mut store);
    assert_eq!(first.id, 1);
    assert_eq!(second.id, 2);
    assert_eq!(first.created_at, 0);
    assert_eq!(first.updated_at, 0);
    assert_eq!(second.created_at, 1);
    let fetched = Application::by_id(2, &store).unwrap();
    assert_eq!(fetched.name, "Two");
    assert_eq!(fetched.repository, "https://git/x");
    assert_eq!(fetched.branch, "main");
    assert_eq!(Application::all(&store).len(), 2);
}

#[test]
fn application_by_id_missing_is_not_found() {
    let store = Store::new();
    let err = Application::by_id(9, &store).unwrap_err();
    assert_eq!(err, LifecycleError::NotFound { id: 9 });
}

#[test]
fn service_insert_starts_not_running() {
    let mut store = Store::new();
    Application::insert(new_application("Demo"), &mut store);
    let svc = Service::insert(new_service(1, "web"), &mut store).unwrap();
    assert_eq!(svc.id, 1);
    assert_eq!(svc.application_id, 1);
    assert_eq!(svc.container_id, None);
    let fetched = Service::by_id(1, &store).unwrap();
    assert_eq!(fetched.name, "web");
    assert_eq!(fetched.container_id, None);
}

#[test]
fn service_insert_unknown_application_is_not_found() {
    let mut store = Store::new();
    let err = Service::insert(new_service(4, "web"), &mut store).unwrap_err();
    assert_eq!(err, LifecycleError::NotFound { id: 4 });
    assert!(Service::all(&store).is_empty());
}

#[test]
fn services_by_application_filters_in_order() {
    let mut store = Store::new();
    Application::insert(new_application("One"), &mut store);
    Application::insert(new_application("Two"), &mut store);
    Service::insert(new_service(1, "a"), &mut store).unwrap();
    Service::insert(new_service(2, "b"), &mut store).unwrap();
    Service::insert(new_service(1, "c"), &mut store).unwrap();
    let of_first = Service::by_application_id(1, &store);
    let names: Vec<String> = of_first.iter().map(|s| s.name.clone()).collect();
    assert_eq!(names, vec!["a".to_string(), "c".to_string()]);
    let of_second = Service::by_application_id(2, &store);
    assert_eq!(of_second.len(), 1);
    assert_eq!(of_second[0].name, "b");
    assert!(Service::by_application_id(3, &store).is_empty());
}

#[test]
fn service_resolves_its_application() {
    let mut store = Store::new();
    Application::insert(new_application("Demo"), &mut store);
    let svc = Service::insert(new_service(1, "web"), &mut store).unwrap();
    let app = svc.application(&store).unwrap();
    assert_eq!(app.id, 1);
    assert_eq!(app.name, "Demo");
}

#[test]
fn delete_application_with_services_is_conflict() {
    let mut store = Store::new();
    Application::insert(new_application("Demo"), &mut store);
    Service::insert(new_service(1, "web"), &mut store).unwrap();
    let err = Application::delete(1, &mut store).unwrap_err();
    assert_eq!(err, LifecycleError::Conflict { id: 1 });
    assert!(Application::by_id(1, &store).is_ok());
}

#[test]
fn delete_application_after_its_services_are_gone() {
    let mut store = Store::new();
    Application::insert(new_application("Demo"), &mut store);
    Service::insert(new_service(1, "web"), &mut store).unwrap();
    Service::delete(1, &mut store).unwrap();
    let gone = Application::delete(1, &mut store).unwrap();
    assert_eq!(gone.name, "Demo");
    let err = Application::by_id(1, &store).unwrap_err();
    assert_eq!(err, LifecycleError::NotFound { id: 1 });
}

#[test]
fn delete_missing_application_is_not_found() {
    let mut store = Store::new();
    let err = Application::delete(5, &mut store).unwrap_err();
    assert_eq!(err, LifecycleError::NotFound { id: 5 });
}

#[test]
fn delete_running_service_is_conflict() {
    let mut store = Store::new();
    Application::insert(new_application("Demo"), &mut store);
    Service::insert(new_service(1, "web"), &mut store).unwrap();
    Service::start_commit(1, "c-1", &mut store).unwrap();
    let err = Service::delete(1, &mut store).unwrap_err();
    assert_eq!(err, LifecycleError::Conflict { id: 1 });
    assert!(Service::by_id(1, &store).is_ok());
}

#[test]
fn delete_stopped_service_succeeds() {
    let mut store = Store::new();
    Application::insert(new_application("Demo"), &mut store);
    Service::insert(new_service(1, "web"), &mut store).unwrap();
    let gone = Service::delete(1, &mut store).unwrap();
    assert_eq!(gone.name, "web");
    let err = Service::by_id(1, &store).unwrap_err();
    assert_eq!(err, LifecycleError::NotFound { id: 1 });
}

#[test]
fn update_container_id_sets_and_clears() {
    let mut store = Store::new();
    Application::insert(new_application("Demo"), &mut store);
    Service::insert(new_service(1, "web"), &mut store).unwrap();
    let set = Service::update_container_id(1, Some("c-9"), &mut store).unwrap();
    assert_eq!(set.container_id, Some("c-9".to_string()));
    assert_eq!(Service::by_id(1, &store).unwrap().container_id, Some("c-9".to_string()));
    let cleared = Service::update_container_id(1, None, &mut store).unwrap();
    assert_eq!(cleared.container_id, None);
    assert_eq!(Service::by_id(1, &store).unwrap().container_id, None);
}

#[test]
fn update_container_id_missing_service_is_not_found() {
    let mut store = Store::new();
    let err = Service::update_container_id(2, Some("c-9"), &mut store).unwrap_err();
    assert_eq!(err, LifecycleError::NotFound { id: 2 });
}

#[test]
fn update_container_id_touches_only_the_container_column() {
    let mut store = Store::new();
    Application::insert(new_application("Demo"), &mut store);
    let before = Service::insert(new_service(1, "web"), &mut store).unwrap();
    let after = Service::update_container_id(1, Some("c-9"), &mut store).unwrap();
    assert_eq!(after.container_id, Some("c-9".to_string()));
    assert_eq!(after.created_at, before.created_at);
    assert_eq!(after.updated_at, before.updated_at);
    assert_eq!(after.name, before.name);
    assert_eq!(after.image, before.image);
    assert_eq!(after.build_context, before.build_context);
}
