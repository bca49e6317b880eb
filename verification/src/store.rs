use vstd::prelude::*;
use crate::application::{Application, ApplicationView};
use crate::service::{Service, ServiceView};

verus! {

/// Spec-level image of the whole record store.
pub struct StoreView {
    pub applications: Seq<ApplicationView>,
    pub services: Seq<ServiceView>,
    pub next_application_id: int,
    pub next_service_id: int,
    pub clock: int,
}

/// There is an application record with the given id.
pub open spec fn has_app(s: Seq<ApplicationView>, id: int) -> bool {
    exists|i: int| 0 <= i < s.len() && #[trigger] s[i].id == id
}

/// The index of the application record with the given id (meaningful only
/// under `has_app` and unique ids).
pub open spec fn app_index(s: Seq<ApplicationView>, id: int) -> int {
    choose|i: int| 0 <= i < s.len() && #[trigger] s[i].id == id
}

/// The application record with the given id.
pub open spec fn app_at(s: Seq<ApplicationView>, id: int) -> ApplicationView {
    s[app_index(s, id)]
}

/// There is a service record with the given id.
pub open spec fn has_svc(s: Seq<ServiceView>, id: int) -> bool {
    exists|i: int| 0 <= i < s.len() && #[trigger] s[i].id == id
}

/// The index of the service record with the given id (meaningful only under
/// `has_svc` and unique ids).
pub open spec fn svc_index(s: Seq<ServiceView>, id: int) -> int {
    choose|i: int| 0 <= i < s.len() && #[trigger] s[i].id == id
}

/// The service record with the given id.
pub open spec fn svc_at(s: Seq<ServiceView>, id: int) -> ServiceView {
    s[svc_index(s, id)]
}

/// No two application records share an id.
pub open spec fn unique_app_ids(s: Seq<ApplicationView>) -> bool {
    forall|i: int, j: int|
        0 <= i < s.len() && 0 <= j < s.len() && i != j ==> #[trigger] s[i].id != #[trigger] s[j].id
}

/// No two service records share an id.
pub open spec fn unique_svc_ids(s: Seq<ServiceView>) -> bool {
    forall|i: int, j: int|
        0 <= i < s.len() && 0 <= j < s.len() && i != j ==> #[trigger] s[i].id != #[trigger] s[j].id
}

/// Some service record still points at the application with the given id.
pub open spec fn references_app(s: Seq<ServiceView>, application_id: int) -> bool {
    exists|i: int| 0 <= i < s.len() && #[trigger] s[i].application_id == application_id
}

/// The store's transition on a service's running state: the record with the
/// given id gets the new `container_id`; every other record, and every other
/// field of this one, is untouched.
pub open spec fn with_container_id(
    s: Seq<ServiceView>,
    id: int,
    container_id: Option<Seq<char>>,
) -> Seq<ServiceView> {
    s.map(
        |i: int, v: ServiceView|
            if v.id == id {
                ServiceView { container_id: container_id, ..v }
            } else {
                v
            },
    )
}

/// The store's logical clock after one mutation: it advances by one and
/// saturates at the largest representable instant.
pub open spec fn tick(clock: int) -> int {
    if clock < i64::MAX {
        clock + 1
    } else {
        clock
    }
}

impl StoreView {
    /// Well-formedness of the store: ids are positive, below their
    /// generator, and unique, and every service points at an existing
    /// application (referential integrity).
    pub open spec fn inv(self) -> bool {
        &&& 1 <= self.next_application_id <= i32::MAX
        &&& 1 <= self.next_service_id <= i32::MAX
        &&& 0 <= self.clock <= i64::MAX
        &&& forall|i: int|
            0 <= i < self.applications.len() ==> 1 <= (#[trigger] self.applications[i]).id
                < self.next_application_id
        &&& unique_app_ids(self.applications)
        &&& forall|i: int|
            0 <= i < self.services.len() ==> 1 <= (#[trigger] self.services[i]).id
                < self.next_service_id
        &&& unique_svc_ids(self.services)
        &&& forall|i: int|
            0 <= i < self.services.len() ==> has_app(
                self.applications,
                (#[trigger] self.services[i]).application_id,
            )
    }
}

/// Under unique ids, an index whose record carries the id is the index that
/// `app_index` denotes.
pub proof fn lemma_app_index_is(s: Seq<ApplicationView>, id: int, i: int)
    requires
        unique_app_ids(s),
        0 <= i < s.len(),
        s[i].id == id,
    ensures
        has_app(s, id),
        app_index(s, id) == i,
        app_at(s, id) == s[i],
{
    assert(has_app(s, id));
    let j: int = app_index(s, id);
    assert(0 <= j < s.len() && s[j].id == id);
}

/// Under unique ids, an index whose record carries the id is the index that
/// `svc_index` denotes.
pub proof fn lemma_svc_index_is(s: Seq<ServiceView>, id: int, i: int)
    requires
        unique_svc_ids(s),
        0 <= i < s.len(),
        s[i].id == id,
    ensures
        has_svc(s, id),
        svc_index(s, id) == i,
        svc_at(s, id) == s[i],
{
    assert(has_svc(s, id));
    let j: int = svc_index(s, id);
    assert(0 <= j < s.len() && s[j].id == id);
}

/// The in-memory record store that the lifecycle transitions are verified
/// against. Ids are handed out by the store; timestamps come from its
/// logical clock.
pub struct Store {
    pub applications: Vec<Application>,
    pub services: Vec<Service>,
    pub next_application_id: i32,
    pub next_service_id: i32,
    pub clock: i64,
}

impl View for Store {
    type V = StoreView;

    open spec fn view(&self) -> StoreView {
        StoreView {
            applications: self.applications@.map_values(|a: Application| a@),
            services: self.services@.map_values(|s: Service| s@),
            next_application_id: self.next_application_id as int,
            next_service_id: self.next_service_id as int,
            clock: self.clock as int,
        }
    }
}

impl Store {
    /// Well-formedness, stated over the view.
    pub open spec fn wf(&self) -> bool {
        self@.inv()
    }

    /// An empty store: no records, ids start at 1, the clock at 0.
    pub fn new() -> (r: Store)
        ensures
            r.wf(),
            r@.applications == Seq::<ApplicationView>::empty(),
            r@.services == Seq::<ServiceView>::empty(),
            r@.next_application_id == 1,
            r@.next_service_id == 1,
            r@.clock == 0,
    {
        let r = Store {
            applications: Vec::new(),
            services: Vec::new(),
            next_application_id: 1,
            next_service_id: 1,
            clock: 0,
        };
        proof {
            assert(r@.applications =~= Seq::<ApplicationView>::empty());
            assert(r@.services =~= Seq::<ServiceView>::empty());
        }
        r
    }

    /// Advances the logical clock by one mutation.
    pub(crate) fn advance_clock(&mut self)
        requires
            0 <= old(self).clock,
        ensures
            final (self).clock as int == tick(old(self).clock as int),
            final (self).applications == old(self).applications,
            final (self).services == old(self).services,
            final (self).next_application_id == old(self).next_application_id,
            final (self).next_service_id == old(self).next_service_id,
    {
        if self.clock < i64::MAX {
            self.clock = self.clock + 1;
        }
    }
}

} // verus!
