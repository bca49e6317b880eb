use vstd::prelude::*;
use crate::application::{Application, NewApplication};
use crate::buildlog::{BuildRequest, BuildRequestView};
use crate::errors::LifecycleError;
use crate::identity::{remote_source_of, slug_of};
use crate::service::{NewService, Service};
use crate::store::{
    app_at, app_index, has_app, has_svc, references_app, svc_at, svc_index, tick, Store,
};

verus! {

/// The read side of the application records: pure translation onto the
/// store's lookups.
pub struct ApplicationQuery;

impl ApplicationQuery {
    /// Every application record.
    pub fn applications(&self, store: &Store) -> (r: Vec<Application>)
        ensures
            r@.len() == store@.applications.len(),
            forall|i: int| 0 <= i < r@.len() ==> (#[trigger] r@[i])@ == store@.applications[i],
    {
        Application::all(store)
    }

    /// One application record by id.
    pub fn application(&self, store: &Store, id: i32) -> (r: Result<Application, LifecycleError>)
        requires
            store.wf(),
        ensures
            r is Ok <==> has_app(store@.applications, id as int),
            r is Ok ==> r->Ok_0@ == app_at(store@.applications, id as int),
            r is Err ==> r->Err_0 == (LifecycleError::NotFound { id }),
    {
        Application::by_id(id, store)
    }
}

/// The write side of the application records.
pub struct ApplicationMutation;

impl ApplicationMutation {
    /// Declares a new application.
    pub fn insert_application(
        &self,
        store: &mut Store,
        name: String,
        repository: String,
        branch: String,
    ) -> (r: Application)
        requires
            old(store).wf(),
            old(store)@.next_application_id < i32::MAX,
        ensures
            final(store).wf(),
            r@.id == old(store)@.next_application_id,
            r@.name == name@,
            r@.repository == repository@,
            r@.branch == branch@,
            r@.created_at == old(store)@.clock,
            r@.updated_at == old(store)@.clock,
            final(store)@.applications == old(store)@.applications.push(r@),
            final(store)@.services == old(store)@.services,
            final(store)@.next_application_id == old(store)@.next_application_id + 1,
            final(store)@.next_service_id == old(store)@.next_service_id,
            final(store)@.clock == tick(old(store)@.clock),
    {
        Application::insert(NewApplication { name, repository, branch }, store)
    }

    /// Deletes an application; one that a service still points at is
    /// refused with `Conflict`.
    pub fn delete_application(&self, store: &mut Store, id: i32) -> (r: Result<
        Application,
        LifecycleError,
    >)
        requires
            old(store).wf(),
        ensures
            final(store).wf(),
            r is Ok <==> has_app(old(store)@.applications, id as int) && !references_app(
                old(store)@.services,
                id as int,
            ),
            r is Ok ==> r->Ok_0@ == app_at(old(store)@.applications, id as int) && final(store)@.applications == old(store)@.applications.remove(
                app_index(old(store)@.applications, id as int),
            ) && final(store)@.services == old(store)@.services && final(store)@.next_application_id == old(store)@.next_application_id
                && final(store)@.next_service_id == old(store)@.next_service_id && final(store)@.clock == old(store)@.clock,
            !has_app(old(store)@.applications, id as int) ==> r->Err_0 == (LifecycleError::NotFound {
                id,
            }),
            has_app(old(store)@.applications, id as int) && references_app(
                old(store)@.services,
                id as int,
            ) ==> r->Err_0 == (LifecycleError::Conflict { id }),
            r is Err ==> *final(store) == *old(store),
    {
        Application::delete(id, store)
    }
}

/// The read side of the service records.
pub struct ServiceQuery;

impl ServiceQuery {
    /// Every service record.
    pub fn services(&self, store: &Store) -> (r: Vec<Service>)
        ensures
            r@.len() == store@.services.len(),
            forall|i: int| 0 <= i < r@.len() ==> (#[trigger] r@[i])@ == store@.services[i],
    {
        Service::all(store)
    }

    /// One service record by id.
    pub fn service(&self, store: &Store, id: i32) -> (r: Result<Service, LifecycleError>)
        requires
            store.wf(),
        ensures
            r is Ok <==> has_svc(store@.services, id as int),
            r is Ok ==> r->Ok_0@ == svc_at(store@.services, id as int),
            r is Err ==> r->Err_0 == (LifecycleError::NotFound { id }),
    {
        Service::by_id(id, store)
    }
}

/// The write side of the service records and the entry points of the three
/// lifecycle operations. The backend-facing halves return what the container
/// backend is to be asked; the store-facing halves are `Service`'s
/// conditional commits.
pub struct ServiceMutation;

impl ServiceMutation {
    /// Declares a new service under an existing application.
    pub fn insert_service(
        &self,
        store: &mut Store,
        application_id: i32,
        name: String,
        image: String,
        build_context: String,
    ) -> (r: Result<Service, LifecycleError>)
        requires
            old(store).wf(),
            old(store)@.next_service_id < i32::MAX,
        ensures
            final(store).wf(),
            r is Ok <==> has_app(old(store)@.applications, application_id as int),
            r is Err ==> r->Err_0 == (LifecycleError::NotFound { id: application_id }) && *final(store) == *old(store),
            r is Ok ==> ({
                let v = r->Ok_0@;
                &&& v.id == old(store)@.next_service_id
                &&& v.application_id == application_id as int
                &&& v.name == name@
                &&& v.image == image@
                &&& v.build_context == build_context@
                &&& v.container_id is None
                &&& v.created_at == old(store)@.clock
                &&& v.updated_at == old(store)@.clock
                &&& final(store)@.services == old(store)@.services.push(v)
                &&& final(store)@.applications == old(store)@.applications
                &&& final(store)@.next_service_id == old(store)@.next_service_id + 1
                &&& final(store)@.next_application_id == old(store)@.next_application_id
                &&& final(store)@.clock == tick(old(store)@.clock)
            }),
    {
        Service::insert(NewService { application_id, name, image, build_context }, store)
    }

    /// Deletes a service; a running one is refused with `Conflict`.
    pub fn delete_service(&self, store: &mut Store, id: i32) -> (r: Result<
        Service,
        LifecycleError,
    >)
        requires
            old(store).wf(),
        ensures
            final(store).wf(),
            r is Ok <==> has_svc(old(store)@.services, id as int) && svc_at(
                old(store)@.services,
                id as int,
            ).container_id is None,
            r is Ok ==> r->Ok_0@ == svc_at(old(store)@.services, id as int) && final(store)@.services == old(store)@.services.remove(
                svc_index(old(store)@.services, id as int),
            ) && final(store)@.applications == old(store)@.applications && final(store)@.next_application_id == old(store)@.next_application_id
                && final(store)@.next_service_id == old(store)@.next_service_id && final(store)@.clock == old(store)@.clock,
            !has_svc(old(store)@.services, id as int) ==> r->Err_0 == (LifecycleError::NotFound {
                id,
            }),
            has_svc(old(store)@.services, id as int) && svc_at(
                old(store)@.services,
                id as int,
            ).container_id is Some ==> r->Err_0 == (LifecycleError::Conflict { id }),
            r is Err ==> *final(store) == *old(store),
    {
        Service::delete(id, store)
    }

    /// The decision half of `buildService`: resolves the service and derives
    /// the build request for the backend. Reducing the backend's chunk
    /// stream is `reduce_build_log`; no record is written either way.
    pub fn build_service(&self, store: &Store, id: i32) -> (r: Result<
        BuildRequest,
        LifecycleError,
    >)
        requires
            store.wf(),
        ensures
            r is Ok <==> has_svc(store@.services, id as int) && has_app(
                store@.applications,
                svc_at(store@.services, id as int).application_id,
            ),
            r is Ok ==> r->Ok_0@ == ({
                let svc = svc_at(store@.services, id as int);
                let app = app_at(store@.applications, svc.application_id);
                BuildRequestView {
                    remote: remote_source_of(app.repository, app.branch, svc.build_context),
                    tag: slug_of(app.name, svc.image),
                    rm: true,
                }
            }),
            !has_svc(store@.services, id as int) ==> r->Err_0 == (LifecycleError::NotFound { id }),
            has_svc(store@.services, id as int) && !has_app(
                store@.applications,
                svc_at(store@.services, id as int).application_id,
            ) ==> r->Err_0 == (LifecycleError::NotFound {
                id: svc_at(store@.services, id as int).application_id as i32,
            }),
    {
        let service = match Service::by_id(id, store) {
            Ok(s) => s,
            Err(e) => {
                return Err(e);
            },
        };
        service.build_plan(store)
    }

    /// The decision half of `startService`: checks the service is not
    /// running and derives the image tag the backend is to create a
    /// container from. Persisting the started container is
    /// `Service::start_commit`.
    pub fn start_service(&self, store: &Store, id: i32) -> (r: Result<String, LifecycleError>)
        requires
            store.wf(),
        ensures
            r is Ok <==> has_svc(store@.services, id as int) && svc_at(
                store@.services,
                id as int,
            ).container_id is None && has_app(
                store@.applications,
                svc_at(store@.services, id as int).application_id,
            ),
            r is Ok ==> r->Ok_0@ == slug_of(
                app_at(
                    store@.applications,
                    svc_at(store@.services, id as int).application_id,
                ).name,
                svc_at(store@.services, id as int).image,
            ),
            !has_svc(store@.services, id as int) ==> r->Err_0 == (LifecycleError::NotFound { id }),
            has_svc(store@.services, id as int) && svc_at(
                store@.services,
                id as int,
            ).container_id is Some ==> r->Err_0 == (LifecycleError::Conflict { id }),
            has_svc(store@.services, id as int) && svc_at(
                store@.services,
                id as int,
            ).container_id is None && !has_app(
                store@.applications,
                svc_at(store@.services, id as int).application_id,
            ) ==> r->Err_0 == (LifecycleError::NotFound {
                id: svc_at(store@.services, id as int).application_id as i32,
            }),
    {
        let service = match Service::by_id(id, store) {
            Ok(s) => s,
            Err(e) => {
                return Err(e);
            },
        };
        service.start_plan(store)
    }

    /// The decision half of `stopService`: the persisted container id the
    /// backend is to remove, or `Conflict` if the service is not running.
    /// Clearing the persisted id afterwards is `Service::stop_commit`.
    pub fn stop_service(&self, store: &Store, id: i32) -> (r: Result<String, LifecycleError>)
        requires
            store.wf(),
        ensures
            r is Ok <==> has_svc(store@.services, id as int) && svc_at(
                store@.services,
                id as int,
            ).container_id is Some,
            r is Ok ==> Some(r->Ok_0@) == svc_at(store@.services, id as int).container_id,
            !has_svc(store@.services, id as int) ==> r->Err_0 == (LifecycleError::NotFound { id }),
            has_svc(store@.services, id as int) && svc_at(
                store@.services,
                id as int,
            ).container_id is None ==> r->Err_0 == (LifecycleError::Conflict { id }),
    {
        let service = match Service::by_id(id, store) {
            Ok(s) => s,
            Err(e) => {
                return Err(e);
            },
        };
        service.stop_plan()
    }
}

/// The exposed query surface, applications and services merged.
pub struct Query(pub ApplicationQuery, pub ServiceQuery);

/// The exposed mutation surface, applications and services merged.
pub struct Mutation(pub ApplicationMutation, pub ServiceMutation);

} // verus!
