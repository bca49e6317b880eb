use vstd::prelude::*;
use crate::application::ApplicationView;
use crate::buildlog::{all_chunks_ok, log_of, LogChunkView};
use crate::identity::{remote_source_of, slug_of};
use crate::service::ServiceView;
use crate::store::{has_svc, svc_at, svc_index, unique_svc_ids, with_container_id};

verus! {

/// The slug is a pure function: equal application and service field values
/// always yield the same string, however often and wherever it is derived.
pub proof fn lemma_slug_deterministic(
    name1: Seq<char>,
    image1: Seq<char>,
    name2: Seq<char>,
    image2: Seq<char>,
)
    requires
        name1 == name2,
        image1 == image2,
    ensures
        slug_of(name1, image1) == slug_of(name2, image2),
{
}

/// Building twice in a row from an unmodified service derives the same
/// request both times, and each reduction succeeds on an all-successful
/// chunk stream, yielding the log determined by its own chunks alone. No
/// build step writes a record, so `container_id` is untouched: `build_plan`
/// takes the store by shared reference and `reduce_build_log` sees only the
/// chunks.
pub proof fn lemma_build_idempotent(
    app1: ApplicationView,
    svc1: ServiceView,
    app2: ApplicationView,
    svc2: ServiceView,
    chunks1: Seq<LogChunkView>,
    chunks2: Seq<LogChunkView>,
)
    requires
        app1 == app2,
        svc1 == svc2,
        all_chunks_ok(chunks1),
        all_chunks_ok(chunks2),
    ensures
        remote_source_of(app1.repository, app1.branch, svc1.build_context) == remote_source_of(
            app2.repository,
            app2.branch,
            svc2.build_context,
        ),
        slug_of(app1.name, svc1.image) == slug_of(app2.name, svc2.image),
        chunks1 == chunks2 ==> log_of(chunks1) == log_of(chunks2),
        svc1.container_id == svc2.container_id,
{
}

/// The store's running-state transition, characterised: the target service
/// carries the new container id and nothing else of it changes, every other
/// record is untouched, and ids (and with them id-lookups) are preserved.
pub proof fn lemma_with_container_id_at(s: Seq<ServiceView>, id: int, cid: Option<Seq<char>>)
    requires
        unique_svc_ids(s),
        has_svc(s, id),
    ensures
        with_container_id(s, id, cid).len() == s.len(),
        unique_svc_ids(with_container_id(s, id, cid)),
        has_svc(with_container_id(s, id, cid), id),
        svc_index(with_container_id(s, id, cid), id) == svc_index(s, id),
        svc_at(with_container_id(s, id, cid), id) == (ServiceView {
            container_id: cid,
            ..svc_at(s, id)
        }),
        forall|j: int|
            0 <= j < s.len() && (#[trigger] s[j]).id != id ==> with_container_id(s, id, cid)[j]
                == s[j],
{
    let post = with_container_id(s, id, cid);
    let i: int = svc_index(s, id);
    assert(0 <= i < s.len() && s[i].id == id);
    assert(forall|j: int| 0 <= j < s.len() ==> (#[trigger] post[j]).id == s[j].id);
    assert(post[i] == (ServiceView { container_id: cid, ..s[i] }));
    assert(post[i].id == id);
    assert(has_svc(post, id));
    let i2: int = svc_index(post, id);
    assert(0 <= i2 < post.len() && post[i2].id == id);
    assert(s[i2].id == id);
    assert(i2 == i);
}

/// Start/stop duality over the store's transitions: starting a fresh (not
/// running) service persists exactly the new container id; the subsequent
/// stop clears it again, returning the service to not-running; no other
/// record is touched by either transition.
pub proof fn lemma_start_stop_duality(s: Seq<ServiceView>, id: int, cid: Seq<char>)
    requires
        unique_svc_ids(s),
        has_svc(s, id),
        svc_at(s, id).container_id is None,
    ensures
        ({
            let s1 = with_container_id(s, id, Some(cid));
            let s2 = with_container_id(s1, id, None);
            &&& has_svc(s1, id) && svc_at(s1, id).container_id == Some(cid)
            &&& has_svc(s2, id) && svc_at(s2, id).container_id is None
            &&& unique_svc_ids(s1) && unique_svc_ids(s2)
            &&& forall|j: int| 0 <= j < s.len() && (#[trigger] s[j]).id != id ==> s2[j] == s[j]
        }),
{
    lemma_with_container_id_at(s, id, Some(cid));
    let s1 = with_container_id(s, id, Some(cid));
    lemma_with_container_id_at(s1, id, None);
    let s2 = with_container_id(s1, id, None);
    assert forall|j: int| 0 <= j < s.len() && (#[trigger] s[j]).id != id implies s2[j] == s[j] by {
        assert(s1[j] == s[j]);
        assert(s1[j].id != id);
    }
}

/// One attempt of the conditional start persistence is granted exactly on a
/// present, not-running record.
pub open spec fn start_attempt_grants(s: Seq<ServiceView>, id: int) -> bool {
    has_svc(s, id) && svc_at(s, id).container_id is None
}

/// The store after a sequence of conditional start attempts on one service,
/// paired with how many of them were granted. A granted attempt performs the
/// running-state transition; a refused one leaves the store unchanged,
/// exactly as `start_commit` does.
pub open spec fn start_attempts(
    s: Seq<ServiceView>,
    id: int,
    cids: Seq<Seq<char>>,
) -> (Seq<ServiceView>, nat)
    decreases cids.len(),
{
    if cids.len() == 0 {
        (s, 0nat)
    } else if start_attempt_grants(s, id) {
        let rest = start_attempts(with_container_id(s, id, Some(cids[0])), id, cids.drop_first());
        (rest.0, (rest.1 + 1) as nat)
    } else {
        start_attempts(s, id, cids.drop_first())
    }
}

/// A service that is already running grants no start attempt at all, and the
/// store stays as it is.
proof fn lemma_running_grants_none(s: Seq<ServiceView>, id: int, cids: Seq<Seq<char>>)
    requires
        unique_svc_ids(s),
        has_svc(s, id),
        svc_at(s, id).container_id is Some,
    ensures
        start_attempts(s, id, cids) == (s, 0nat),
    decreases cids.len(),
{
    if cids.len() > 0 {
        lemma_running_grants_none(s, id, cids.drop_first());
    }
}

/// No double grant: however many concurrent starts race on the same fresh
/// service, they serialize at the store's conditional update, and in any
/// such serialization exactly one attempt is granted; every other one finds
/// the service already running and is refused, so no second container id is
/// ever persisted over the first.
pub proof fn lemma_no_double_grant(s: Seq<ServiceView>, id: int, cids: Seq<Seq<char>>)
    requires
        unique_svc_ids(s),
        has_svc(s, id),
        svc_at(s, id).container_id is None,
        cids.len() >= 1,
    ensures
        start_attempts(s, id, cids).1 == 1,
{
    lemma_with_container_id_at(s, id, Some(cids[0]));
    let s1 = with_container_id(s, id, Some(cids[0]));
    lemma_running_grants_none(s1, id, cids.drop_first());
}

} // verus!
