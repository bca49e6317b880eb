use vstd::prelude::*;
use crate::errors::LifecycleError;
use crate::store::{
    app_at, app_index, has_app, lemma_app_index_is, references_app, tick, Store, StoreView,
};

verus! {

/// Spec-level image of an `Application` record.
pub struct ApplicationView {
    pub id: int,
    pub name: Seq<char>,
    pub repository: Seq<char>,
    pub branch: Seq<char>,
    pub created_at: int,
    pub updated_at: int,
}

/// A declared application: a git repository and branch under a display name.
/// Owned by the record store; referenced, never copied, by `Service`.
#[derive(Debug)]
pub struct Application {
    pub id: i32,
    pub name: String,
    pub repository: String,
    pub branch: String,
    pub created_at: i64,
    pub updated_at: i64,
}

impl View for Application {
    type V = ApplicationView;

    open spec fn view(&self) -> ApplicationView {
        ApplicationView {
            id: self.id as int,
            name: self.name@,
            repository: self.repository@,
            branch: self.branch@,
            created_at: self.created_at as int,
            updated_at: self.updated_at as int,
        }
    }
}

/// The caller-supplied fields of an application about to be inserted; id and
/// timestamps are set by the store.
pub struct NewApplication {
    pub name: String,
    pub repository: String,
    pub branch: String,
}

impl Application {
    /// An owned copy of this record.
    pub fn duplicate(&self) -> (r: Application)
        ensures
            r@ == self@,
    {
        Application {
            id: self.id,
            name: self.name.clone(),
            repository: self.repository.clone(),
            branch: self.branch.clone(),
            created_at: self.created_at,
            updated_at: self.updated_at,
        }
    }

    /// Every application record, in insertion order.
    pub fn all(store: &Store) -> (r: Vec<Application>)
        ensures
            r@.len() == store@.applications.len(),
            forall|i: int| 0 <= i < r@.len() ==> (#[trigger] r@[i])@ == store@.applications[i],
    {
        let mut r: Vec<Application> = Vec::new();
        let mut i: usize = 0;
        while i < store.applications.len()
            invariant
                i <= store.applications.len(),
                r@.len() == i,
                forall|k: int| 0 <= k < i as int ==> (#[trigger] r@[k])@ == store@.applications[k],
            decreases store.applications.len() - i,
        {
            r.push(store.applications[i].duplicate());
            i = i + 1;
        }
        r
    }

    /// The application with the given id, or `NotFound`.
    pub fn by_id(id: i32, store: &Store) -> (r: Result<Application, LifecycleError>)
        requires
            store.wf(),
        ensures
            r is Ok <==> has_app(store@.applications, id as int),
            r is Ok ==> r->Ok_0@ == app_at(store@.applications, id as int),
            r is Err ==> r->Err_0 == (LifecycleError::NotFound { id }),
    {
        let n: usize = store.applications.len();
        let mut i: usize = 0;
        while i < n
            invariant
                store.wf(),
                n == store.applications.len(),
                i <= n,
                forall|k: int|
                    0 <= k < i as int ==> (#[trigger] store@.applications[k]).id != id as int,
            decreases n - i,
        {
            if store.applications[i].id == id {
                proof {
                    lemma_app_index_is(store@.applications, id as int, i as int);
                }
                return Ok(store.applications[i].duplicate());
            }
            i = i + 1;
        }
        Err(LifecycleError::NotFound { id })
    }

    /// Inserts a new application. The store assigns the next free id and
    /// stamps both timestamps with its clock.
    pub fn insert(application: NewApplication, store: &mut Store) -> (r: Application)
        requires
            old(store).wf(),
            old(store)@.next_application_id < i32::MAX,
        ensures
            final(store).wf(),
            r@.id == old(store)@.next_application_id,
            r@.name == application.name@,
            r@.repository == application.repository@,
            r@.branch == application.branch@,
            r@.created_at == old(store)@.clock,
            r@.updated_at == old(store)@.clock,
            final(store)@.applications == old(store)@.applications.push(r@),
            final(store)@.services == old(store)@.services,
            final(store)@.next_application_id == old(store)@.next_application_id + 1,
            final(store)@.next_service_id == old(store)@.next_service_id,
            final(store)@.clock == tick(old(store)@.clock),
    {
        let ts: i64 = store.clock;
        let record = Application {
            id: store.next_application_id,
            name: application.name,
            repository: application.repository,
            branch: application.branch,
            created_at: ts,
            updated_at: ts,
        };
        let r = record.duplicate();
        store.applications.push(record);
        store.next_application_id = store.next_application_id + 1;
        store.advance_clock();
        proof {
            assert(store@.applications =~= old(store)@.applications.push(r@));
            assert(store@.services =~= old(store)@.services);
            assert forall|i: int| 0 <= i < store@.services.len() implies has_app(
                store@.applications,
                (#[trigger] store@.services[i]).application_id,
            ) by {
                let fk = store@.services[i].application_id;
                assert(has_app(old(store)@.applications, fk));
                let k = choose|k: int|
                    0 <= k < old(store)@.applications.len() && #[trigger] old(
                        store,
                    )@.applications[k].id == fk;
                assert(store@.applications[k].id == fk);
            }
        }
        r
    }

    /// Deletes the application with the given id. An application that a
    /// service still points at is not deleted: referential integrity is
    /// enforced by refusing with `Conflict` rather than by leaving orphaned
    /// rows behind.
    pub fn delete(id: i32, store: &mut Store) -> (r: Result<Application, LifecycleError>)
        requires
            old(store).wf(),
        ensures
            final(store).wf(),
            r is Ok <==> has_app(old(store)@.applications, id as int) && !references_app(
                old(store)@.services,
                id as int,
            ),
            !has_app(old(store)@.applications, id as int) ==> r->Err_0 == (LifecycleError::NotFound {
                id,
            }) && *final(store) == *old(store),
            has_app(old(store)@.applications, id as int) && references_app(
                old(store)@.services,
                id as int,
            ) ==> r->Err_0 == (LifecycleError::Conflict { id }) && *final(store) == *old(store),
            r is Ok ==> r->Ok_0@ == app_at(old(store)@.applications, id as int)
                && final(store)@.applications == old(store)@.applications.remove(
                app_index(old(store)@.applications, id as int),
            ) && final(store)@.services == old(store)@.services && final(store)@.next_application_id == old(
                store,
            )@.next_application_id && final(store)@.next_service_id == old(store)@.next_service_id
                && final(store)@.clock == old(store)@.clock,
    {
        let n: usize = store.applications.len();
        let mut i: usize = 0;
        while i < n
            invariant
                *store == *old(store),
                store.wf(),
                n == store.applications.len(),
                i <= n,
                forall|k: int|
                    0 <= k < i as int ==> (#[trigger] store@.applications[k]).id != id as int,
            decreases n - i,
        {
            if store.applications[i].id == id {
                proof {
                    lemma_app_index_is(store@.applications, id as int, i as int);
                }
                let mut j: usize = 0;
                let m: usize = store.services.len();
                while j < m
                    invariant
                        *store == *old(store),
                        store.wf(),
                        m == store.services.len(),
                        j <= m,
                        i < store.applications.len(),
                        store@.applications[i as int].id == id as int,
                        forall|k: int|
                            0 <= k < j as int ==> (#[trigger] store@.services[k]).application_id
                                != id as int,
                    decreases m - j,
                {
                    if store.services[j].application_id == id {
                        proof {
                            assert(store@.services[j as int].application_id == id as int);
                            assert(references_app(old(store)@.services, id as int));
                        }
                        return Err(LifecycleError::Conflict { id });
                    }
                    j = j + 1;
                }
                let removed = store.applications.remove(i);
                proof {
                    assert(store@.applications =~= old(store)@.applications.remove(i as int));
                    lemma_wf_after_app_remove(old(store)@, store@, i as int, id as int);
                }
                return Ok(removed);
            }
            i = i + 1;
        }
        Err(LifecycleError::NotFound { id })
    }
}

/// Removing an unreferenced application keeps the store well formed.
proof fn lemma_wf_after_app_remove(pre: StoreView, post: StoreView, i: int, id: int)
    requires
        pre.inv(),
        0 <= i < pre.applications.len(),
        pre.applications[i].id == id,
        !references_app(pre.services, id),
        post.applications == pre.applications.remove(i),
        post.services == pre.services,
        post.next_application_id == pre.next_application_id,
        post.next_service_id == pre.next_service_id,
        post.clock == pre.clock,
    ensures
        post.inv(),
{
    assert forall|k: int| 0 <= k < post.services.len() implies has_app(
        post.applications,
        (#[trigger] post.services[k]).application_id,
    ) by {
        let fk = post.services[k].application_id;
        assert(has_app(pre.applications, fk));
        let a = choose|a: int|
            0 <= a < pre.applications.len() && #[trigger] pre.applications[a].id == fk;
        assert(fk != id);
        assert(a != i);
        if a < i {
            assert(post.applications[a].id == fk);
        } else {
            assert(post.applications[a - 1] == pre.applications[a]);
            assert(post.applications[a - 1].id == fk);
        }
    }
}

} // verus!
