use vstd::prelude::*;
use crate::application::{Application, ApplicationView};
use crate::buildlog::{BuildRequest, BuildRequestView};
use crate::errors::LifecycleError;
use crate::identity::{
    derive_remote_source, derive_slug, remote_source_of, slug_of,
};
use crate::store::{
    app_at, has_app, has_svc, lemma_svc_index_is, svc_at, svc_index, tick, with_container_id,
    Store,
};

verus! {

/// Spec-level image of a `Service` record.
pub struct ServiceView {
    pub id: int,
    pub application_id: int,
    pub name: Seq<char>,
    pub image: Seq<char>,
    pub build_context: Seq<char>,
    pub container_id: Option<Seq<char>>,
    pub created_at: int,
    pub updated_at: int,
}

/// The views of a sequence of service records.
pub open spec fn svc_views(s: Seq<Service>) -> Seq<ServiceView> {
    s.map_values(|x: Service| x@)
}

/// The predicate "this service belongs to the given application".
pub open spec fn belongs_to(application_id: int) -> spec_fn(ServiceView) -> bool {
    |v: ServiceView| v.application_id == application_id
}

/// The view of an optional owned container id.
pub open spec fn opt_string_view(o: Option<String>) -> Option<Seq<char>> {
    match o {
        Some(c) => Some(c@),
        None => None,
    }
}

/// The view of an optional borrowed container id.
pub open spec fn opt_str_view(o: Option<&str>) -> Option<Seq<char>> {
    match o {
        Some(c) => Some(c@),
        None => None,
    }
}

/// A buildable unit of an application: a base image name and a build
/// sub-path within the application's repository. `container_id` is the sole
/// source of truth for "is this service running, and as which container".
#[derive(Debug)]
pub struct Service {
    pub id: i32,
    pub application_id: i32,
    pub name: String,
    pub image: String,
    pub build_context: String,
    pub container_id: Option<String>,
    pub created_at: i64,
    pub updated_at: i64,
}

impl View for Service {
    type V = ServiceView;

    open spec fn view(&self) -> ServiceView {
        ServiceView {
            id: self.id as int,
            application_id: self.application_id as int,
            name: self.name@,
            image: self.image@,
            build_context: self.build_context@,
            container_id: opt_string_view(self.container_id),
            created_at: self.created_at as int,
            updated_at: self.updated_at as int,
        }
    }
}

/// The caller-supplied fields of a service about to be inserted; id,
/// timestamps and the (initially empty) running state are set by the store.
pub struct NewService {
    pub application_id: i32,
    pub name: String,
    pub image: String,
    pub build_context: String,
}

impl Service {
    /// An owned copy of this record.
    pub fn duplicate(&self) -> (r: Service)
        ensures
            r@ == self@,
    {
        Service {
            id: self.id,
            application_id: self.application_id,
            name: self.name.clone(),
            image: self.image.clone(),
            build_context: self.build_context.clone(),
            container_id: match &self.container_id {
                Some(c) => Some(c.clone()),
                None => None,
            },
            created_at: self.created_at,
            updated_at: self.updated_at,
        }
    }

    /// Every service record, in insertion order.
    pub fn all(store: &Store) -> (r: Vec<Service>)
        ensures
            r@.len() == store@.services.len(),
            forall|i: int| 0 <= i < r@.len() ==> (#[trigger] r@[i])@ == store@.services[i],
    {
        let mut r: Vec<Service> = Vec::new();
        let mut i: usize = 0;
        while i < store.services.len()
            invariant
                i <= store.services.len(),
                r@.len() == i,
                forall|k: int| 0 <= k < i as int ==> (#[trigger] r@[k])@ == store@.services[k],
            decreases store.services.len() - i,
        {
            r.push(store.services[i].duplicate());
            i = i + 1;
        }
        r
    }

    /// The service with the given id, or `NotFound`.
    pub fn by_id(id: i32, store: &Store) -> (r: Result<Service, LifecycleError>)
        requires
            store.wf(),
        ensures
            r is Ok <==> has_svc(store@.services, id as int),
            r is Ok ==> r->Ok_0@ == svc_at(store@.services, id as int),
            r is Err ==> r->Err_0 == (LifecycleError::NotFound { id }),
    {
        let n: usize = store.services.len();
        let mut i: usize = 0;
        while i < n
            invariant
                store.wf(),
                n == store.services.len(),
                i <= n,
                forall|k: int|
                    0 <= k < i as int ==> (#[trigger] store@.services[k]).id != id as int,
            decreases n - i,
        {
            if store.services[i].id == id {
                proof {
                    lemma_svc_index_is(store@.services, id as int, i as int);
                }
                return Ok(store.services[i].duplicate());
            }
            i = i + 1;
        }
        Err(LifecycleError::NotFound { id })
    }

    /// The services of one application, in insertion order.
    pub fn by_application_id(application_id: i32, store: &Store) -> (r: Vec<Service>)
        ensures
            svc_views(r@) == store@.services.filter(belongs_to(application_id as int)),
    {
        let mut r: Vec<Service> = Vec::new();
        let n: usize = store.services.len();
        let mut i: usize = 0;
        while i < n
            invariant
                n == store.services.len(),
                i <= n,
                svc_views(r@) == store@.services.take(i as int).filter(
                    belongs_to(application_id as int),
                ),
            decreases n - i,
        {
            proof {
                reveal(Seq::filter);
                let svcs = store@.services;
                assert(svcs.take(i + 1).drop_last() =~= svcs.take(i as int));
                assert(svcs.take(i + 1).last() == svcs[i as int]);
            }
            if store.services[i].application_id == application_id {
                r.push(store.services[i].duplicate());
                proof {
                    reveal(Seq::filter);
                    let p = belongs_to(application_id as int);
                    let svcs = store@.services;
                    assert(p(svcs[i as int]));
                    assert(svcs.take(i + 1).filter(p) =~= svcs.take(i as int).filter(p).push(
                        svcs[i as int],
                    ));
                    assert(svc_views(r@) =~= svcs.take(i + 1).filter(p));
                }
            } else {
                proof {
                    reveal(Seq::filter);
                    let p = belongs_to(application_id as int);
                    let svcs = store@.services;
                    assert(!p(svcs[i as int]));
                    assert(svcs.take(i + 1).filter(p) =~= svcs.take(i as int).filter(p));
                }
            }
            i = i + 1;
        }
        proof {
            assert(store@.services.take(n as int) =~= store@.services);
        }
        r
    }

    /// Inserts a new service pointing at an existing application; a service
    /// starts its life not running (`container_id` empty). An unknown
    /// `application_id` is refused with `NotFound`: the store never holds a
    /// dangling foreign key.
    pub fn insert(service: NewService, store: &mut Store) -> (r: Result<Service, LifecycleError>)
        requires
            old(store).wf(),
            old(store)@.next_service_id < i32::MAX,
        ensures
            final(store).wf(),
            r is Ok <==> has_app(old(store)@.applications, service.application_id as int),
            r is Err ==> r->Err_0 == (LifecycleError::NotFound { id: service.application_id })
                && *final(store) == *old(store),
            r is Ok ==> ({
                let v = r->Ok_0@;
                &&& v.id == old(store)@.next_service_id
                &&& v.application_id == service.application_id as int
                &&& v.name == service.name@
                &&& v.image == service.image@
                &&& v.build_context == service.build_context@
                &&& v.container_id is None
                &&& v.created_at == old(store)@.clock
                &&& v.updated_at == old(store)@.clock
                &&& final(store)@.services == old(store)@.services.push(v)
                &&& final(store)@.applications == old(store)@.applications
                &&& final(store)@.next_service_id == old(store)@.next_service_id + 1
                &&& final(store)@.next_application_id == old(store)@.next_application_id
                &&& final(store)@.clock == tick(old(store)@.clock)
            }),
    {
        let application_exists = match Application::by_id(service.application_id, store) {
            Ok(_) => true,
            Err(_) => false,
        };
        if !application_exists {
            return Err(LifecycleError::NotFound { id: service.application_id });
        }
        let ts: i64 = store.clock;
        let record = Service {
            id: store.next_service_id,
            application_id: service.application_id,
            name: service.name,
            image: service.image,
            build_context: service.build_context,
            container_id: None,
            created_at: ts,
            updated_at: ts,
        };
        let r = record.duplicate();
        store.services.push(record);
        store.next_service_id = store.next_service_id + 1;
        store.advance_clock();
        proof {
            assert(store@.services =~= old(store)@.services.push(r@));
            assert(store@.applications =~= old(store)@.applications);
            assert forall|i: int| 0 <= i < store@.services.len() implies has_app(
                store@.applications,
                (#[trigger] store@.services[i]).application_id,
            ) by {
                if i < old(store)@.services.len() {
                    assert(has_app(old(store)@.applications, store@.services[i].application_id));
                }
            }
        }
        Ok(r)
    }

    /// Deletes the service with the given id. A running service (its
    /// `container_id` set) is not deleted: the caller must stop it first,
    /// otherwise the backend would be left with an untracked container.
    pub fn delete(id: i32, store: &mut Store) -> (r: Result<Service, LifecycleError>)
        requires
            old(store).wf(),
        ensures
            final(store).wf(),
            r is Ok <==> has_svc(old(store)@.services, id as int) && svc_at(
                old(store)@.services,
                id as int,
            ).container_id is None,
            !has_svc(old(store)@.services, id as int) ==> r->Err_0 == (LifecycleError::NotFound {
                id,
            }) && *final(store) == *old(store),
            has_svc(old(store)@.services, id as int) && svc_at(
                old(store)@.services,
                id as int,
            ).container_id is Some ==> r->Err_0 == (LifecycleError::Conflict { id })
                && *final(store) == *old(store),
            r is Ok ==> r->Ok_0@ == svc_at(old(store)@.services, id as int) && final(store)@.services
                == old(store)@.services.remove(svc_index(old(store)@.services, id as int))
                && final(store)@.applications == old(store)@.applications && final(store)@.next_application_id
                == old(store)@.next_application_id && final(store)@.next_service_id == old(
                store,
            )@.next_service_id && final(store)@.clock == old(store)@.clock,
    {
        let n: usize = store.services.len();
        let mut i: usize = 0;
        while i < n
            invariant
                *store == *old(store),
                store.wf(),
                n == store.services.len(),
                i <= n,
                forall|k: int|
                    0 <= k < i as int ==> (#[trigger] store@.services[k]).id != id as int,
            decreases n - i,
        {
            if store.services[i].id == id {
                proof {
                    lemma_svc_index_is(store@.services, id as int, i as int);
                }
                if store.services[i].container_id.is_some() {
                    return Err(LifecycleError::Conflict { id });
                }
                let removed = store.services.remove(i);
                proof {
                    assert(store@.services =~= old(store)@.services.remove(i as int));
                    assert forall|k: int| 0 <= k < store@.services.len() implies 1 <= (
                    #[trigger] store@.services[k]).id < store@.next_service_id && has_app(
                        store@.applications,
                        store@.services[k].application_id,
                    ) by {
                        if k < i as int {
                            assert(store@.services[k] == old(store)@.services[k]);
                        } else {
                            assert(store@.services[k] == old(store)@.services[k + 1]);
                        }
                    }
                    assert forall|a: int, b: int|
                        0 <= a < store@.services.len() && 0 <= b < store@.services.len() && a
                            != b implies #[trigger] store@.services[a].id
                        != #[trigger] store@.services[b].id by {
                        let a0 = if a < i as int {
                            a
                        } else {
                            a + 1
                        };
                        let b0 = if b < i as int {
                            b
                        } else {
                            b + 1
                        };
                        assert(store@.services[a] == old(store)@.services[a0]);
                        assert(store@.services[b] == old(store)@.services[b0]);
                    }
                }
                return Ok(removed);
            }
            i = i + 1;
        }
        Err(LifecycleError::NotFound { id })
    }

    /// The application this service belongs to.
    pub fn application(&self, store: &Store) -> (r: Result<Application, LifecycleError>)
        requires
            store.wf(),
        ensures
            r is Ok <==> has_app(store@.applications, self@.application_id),
            r is Ok ==> r->Ok_0@ == app_at(store@.applications, self@.application_id),
            r is Err ==> r->Err_0 == (LifecycleError::NotFound { id: self.application_id }),
    {
        Application::by_id(self.application_id, store)
    }

    /// The derived image identity of this service: lower-cased,
    /// space-to-hyphen application name, joined with the base image name by a
    /// hyphen. Pure and total: equal field values always yield the same
    /// string.
    pub fn slug(&self, application: &Application) -> (r: String)
        ensures
            r@ == slug_of(application@.name, self@.image),
    {
        derive_slug(application.name.as_str(), self.image.as_str())
    }

    /// The remote build source for this service:
    /// `repository#branch:build_context`.
    pub fn remote_source(&self, application: &Application) -> (r: String)
        ensures
            r@ == remote_source_of(application@.repository, application@.branch, self@.build_context),
    {
        derive_remote_source(
            application.repository.as_str(),
            application.branch.as_str(),
            self.build_context.as_str(),
        )
    }

    /// The first half of `build`: resolves the application and derives the
    /// build request that the container backend is to run. Builds have no
    /// persisted side effect; in particular `container_id` is never touched
    /// by a build.
    pub fn build_plan(&self, store: &Store) -> (r: Result<BuildRequest, LifecycleError>)
        requires
            store.wf(),
        ensures
            r is Ok <==> has_app(store@.applications, self@.application_id),
            r is Ok ==> r->Ok_0@ == (BuildRequestView {
                remote: remote_source_of(
                    app_at(store@.applications, self@.application_id).repository,
                    app_at(store@.applications, self@.application_id).branch,
                    self@.build_context,
                ),
                tag: slug_of(app_at(store@.applications, self@.application_id).name, self@.image),
                rm: true,
            }),
            r is Err ==> r->Err_0 == (LifecycleError::NotFound { id: self.application_id }),
    {
        let application = match self.application(store) {
            Ok(a) => a,
            Err(e) => {
                return Err(e);
            },
        };
        let remote = self.remote_source(&application);
        let tag = self.slug(&application);
        Ok(BuildRequest { remote, tag, rm: true })
    }

    /// The first half of `start`: checks, at call time, that the service is
    /// not already running, resolves the application and derives the image
    /// tag to create the container from. A running service is refused with
    /// `Conflict` before any backend call is made.
    pub fn start_plan(&self, store: &Store) -> (r: Result<String, LifecycleError>)
        requires
            store.wf(),
        ensures
            r is Ok <==> self@.container_id is None && has_app(
                store@.applications,
                self@.application_id,
            ),
            self@.container_id is Some ==> r->Err_0 == (LifecycleError::Conflict { id: self.id }),
            self@.container_id is None && !has_app(store@.applications, self@.application_id)
                ==> r->Err_0 == (LifecycleError::NotFound { id: self.application_id }),
            r is Ok ==> r->Ok_0@ == slug_of(
                app_at(store@.applications, self@.application_id).name,
                self@.image,
            ),
    {
        if self.container_id.is_some() {
            return Err(LifecycleError::Conflict { id: self.id });
        }
        let application = match self.application(store) {
            Ok(a) => a,
            Err(e) => {
                return Err(e);
            },
        };
        Ok(self.slug(&application))
    }

    /// The first half of `stop`: the persisted container id that the backend
    /// is to remove, or `Conflict` if the service is not running. No backend
    /// call is to be made in the `Conflict` case.
    pub fn stop_plan(&self) -> (r: Result<String, LifecycleError>)
        ensures
            r is Ok <==> self@.container_id is Some,
            self@.container_id is None ==> r->Err_0 == (LifecycleError::Conflict { id: self.id }),
            r is Ok ==> Some(r->Ok_0@) == self@.container_id,
    {
        match &self.container_id {
            Some(c) => Ok(c.clone()),
            None => Err(LifecycleError::Conflict { id: self.id }),
        }
    }

    /// The second half of `start`: persists the freshly started container's
    /// id, conditionally. The check "still not running" and the write are one
    /// indivisible store transition, so two concurrent starts can never both
    /// persist: the loser sees `Conflict` and must remove the container it
    /// created, instead of leaking it. A record that vanished between the
    /// backend call and this write means the backend and the store disagree,
    /// which is surfaced as `InconsistentState`, never repaired silently.
    pub fn start_commit(id: i32, container_id: &str, store: &mut Store) -> (r: Result<
        String,
        LifecycleError,
    >)
        requires
            old(store).wf(),
        ensures
            final(store).wf(),
            r is Ok <==> has_svc(old(store)@.services, id as int) && svc_at(
                old(store)@.services,
                id as int,
            ).container_id is None,
            !has_svc(old(store)@.services, id as int) ==> r->Err_0
                == (LifecycleError::InconsistentState { id }) && *final(store) == *old(store),
            has_svc(old(store)@.services, id as int) && svc_at(
                old(store)@.services,
                id as int,
            ).container_id is Some ==> r->Err_0 == (LifecycleError::Conflict { id })
                && *final(store) == *old(store),
            r is Ok ==> ({
                &&& r->Ok_0@ == container_id@
                &&& final(store)@.services == with_container_id(
                    old(store)@.services,
                    id as int,
                    Some(container_id@),
                )
                &&& final(store)@.applications == old(store)@.applications
                &&& final(store)@.next_application_id == old(store)@.next_application_id
                &&& final(store)@.next_service_id == old(store)@.next_service_id
                &&& final(store)@.clock == old(store)@.clock
            }),
    {
        let n: usize = store.services.len();
        let mut i: usize = 0;
        while i < n
            invariant
                *store == *old(store),
                store.wf(),
                n == store.services.len(),
                i <= n,
                forall|k: int|
                    0 <= k < i as int ==> (#[trigger] store@.services[k]).id != id as int,
            decreases n - i,
        {
            if store.services[i].id == id {
                proof {
                    lemma_svc_index_is(store@.services, id as int, i as int);
                }
                if store.services[i].container_id.is_some() {
                    return Err(LifecycleError::Conflict { id });
                }
                write_container_id(store, i, Some(container_id.to_owned()));
                return Ok(container_id.to_owned());
            }
            i = i + 1;
        }
        Err(LifecycleError::InconsistentState { id })
    }

    /// The second half of `stop`: after the backend has removed the
    /// container, clears the persisted id, conditionally: only the exact id
    /// that was removed is cleared. A record that vanished, or one that no
    /// longer carries that id, means the store and the backend disagree
    /// about what was just removed: surfaced as `InconsistentState`.
    pub fn stop_commit(id: i32, container_id: &str, store: &mut Store) -> (r: Result<
        String,
        LifecycleError,
    >)
        requires
            old(store).wf(),
        ensures
            final(store).wf(),
            r is Ok <==> has_svc(old(store)@.services, id as int) && svc_at(
                old(store)@.services,
                id as int,
            ).container_id == Some(container_id@),
            r is Err ==> r->Err_0 == (LifecycleError::InconsistentState { id }) && *final(store)
                == *old(store),
            r is Ok ==> ({
                &&& r->Ok_0@ == container_id@
                &&& final(store)@.services == with_container_id(
                    old(store)@.services,
                    id as int,
                    None,
                )
                &&& final(store)@.applications == old(store)@.applications
                &&& final(store)@.next_application_id == old(store)@.next_application_id
                &&& final(store)@.next_service_id == old(store)@.next_service_id
                &&& final(store)@.clock == old(store)@.clock
            }),
    {
        let n: usize = store.services.len();
        let mut i: usize = 0;
        while i < n
            invariant
                *store == *old(store),
                store.wf(),
                n == store.services.len(),
                i <= n,
                forall|k: int|
                    0 <= k < i as int ==> (#[trigger] store@.services[k]).id != id as int,
            decreases n - i,
        {
            if store.services[i].id == id {
                proof {
                    lemma_svc_index_is(store@.services, id as int, i as int);
                }
                let matches_current = match &store.services[i].container_id {
                    Some(current) => {
                        let expected: String = container_id.to_owned();
                        current.eq(&expected)
                    },
                    None => false,
                };
                if !matches_current {
                    return Err(LifecycleError::InconsistentState { id });
                }
                write_container_id(store, i, None);
                return Ok(container_id.to_owned());
            }
            i = i + 1;
        }
        Err(LifecycleError::InconsistentState { id })
    }

    /// Overwrites the persisted running-state of a service, unconditionally;
    /// no other column of the row is touched. The lifecycle operations go
    /// through the conditional `start_commit` / `stop_commit` instead; this
    /// is the store's generic single-row update.
    pub fn update_container_id(id: i32, container_id: Option<&str>, store: &mut Store) -> (r:
        Result<Service, LifecycleError>)
        requires
            old(store).wf(),
        ensures
            final(store).wf(),
            r is Ok <==> has_svc(old(store)@.services, id as int),
            r is Err ==> r->Err_0 == (LifecycleError::NotFound { id })
                && *final(store) == *old(store),
            r is Ok ==> ({
                &&& r->Ok_0@ == (ServiceView {
                    container_id: opt_str_view(container_id),
                    ..svc_at(old(store)@.services, id as int)
                })
                &&& final(store)@.services == with_container_id(
                    old(store)@.services,
                    id as int,
                    opt_str_view(container_id),
                )
                &&& final(store)@.applications == old(store)@.applications
                &&& final(store)@.next_application_id == old(store)@.next_application_id
                &&& final(store)@.next_service_id == old(store)@.next_service_id
                &&& final(store)@.clock == old(store)@.clock
            }),
    {
        let n: usize = store.services.len();
        let mut i: usize = 0;
        while i < n
            invariant
                *store == *old(store),
                store.wf(),
                n == store.services.len(),
                i <= n,
                forall|k: int|
                    0 <= k < i as int ==> (#[trigger] store@.services[k]).id != id as int,
            decreases n - i,
        {
            if store.services[i].id == id {
                proof {
                    lemma_svc_index_is(store@.services, id as int, i as int);
                }
                let owned: Option<String> = match container_id {
                    Some(c) => Some(c.to_owned()),
                    None => None,
                };
                proof {
                    assert(opt_string_view(owned) == opt_str_view(container_id));
                }
                write_container_id(store, i, owned);
                proof {
                    assert(i < store@.services.len());
                }
                let rec = store.services[i].duplicate();
                return Ok(rec);
            }
            i = i + 1;
        }
        Err(LifecycleError::NotFound { id })
    }
}

/// Replaces the running-state of the record at a known index: the new
/// `container_id` is written; every other field and every other record is
/// untouched.
fn write_container_id(store: &mut Store, i: usize, container_id: Option<String>)
    requires
        old(store).wf(),
        i < old(store).services.len(),
    ensures
        final(store).wf(),
        final(store)@.services == with_container_id(
            old(store)@.services,
            old(store)@.services[i as int].id,
            opt_string_view(container_id),
        ),
        final(store)@.services[i as int] == (ServiceView {
            container_id: opt_string_view(container_id),
            ..old(store)@.services[i as int]
        }),
        final(store)@.services.len() == old(store)@.services.len(),
        final(store)@.applications == old(store)@.applications,
        final(store)@.next_application_id == old(store)@.next_application_id,
        final(store)@.next_service_id == old(store)@.next_service_id,
        final(store)@.clock == old(store)@.clock,
{
    let updated = Service {
        id: store.services[i].id,
        application_id: store.services[i].application_id,
        name: store.services[i].name.clone(),
        image: store.services[i].image.clone(),
        build_context: store.services[i].build_context.clone(),
        container_id,
        created_at: store.services[i].created_at,
        updated_at: store.services[i].updated_at,
    };
    store.services[i] = updated;
    proof {
        let pre = old(store)@.services;
        let post = store@.services;
        let tgt = pre[i as int].id;
        let cid = opt_string_view(container_id);
        let goal = with_container_id(pre, tgt, cid);
        assert forall|j: int| 0 <= j < post.len() implies post[j] == goal[j] by {
            if j != i as int {
                assert(pre[j].id != tgt);
                assert(post[j] == pre[j]);
            }
        }
        assert(post =~= goal);
        assert forall|j: int| 0 <= j < post.len() implies 1 <= (#[trigger] post[j]).id
            < store@.next_service_id && has_app(
            store@.applications,
            post[j].application_id,
        ) by {
            assert(post[j].id == pre[j].id);
            assert(post[j].application_id == pre[j].application_id);
        }
        assert forall|a: int, b: int|
            0 <= a < post.len() && 0 <= b < post.len() && a != b implies #[trigger] post[a].id
            != #[trigger] post[b].id by {
            assert(post[a].id == pre[a].id);
            assert(post[b].id == pre[b].id);
        }
    }
}


} // verus!
