use vstd::prelude::*;
use crate::errors::LifecycleError;
use vstd::string::StringExecFns;

verus! {

/// Spec-level image of a build request.
pub struct BuildRequestView {
    pub remote: Seq<char>,
    pub tag: Seq<char>,
    pub rm: bool,
}

/// What the container backend is asked to build: a remote source reference,
/// the target image tag, and whether intermediate layers are removed on
/// success.
#[derive(Debug)]
pub struct BuildRequest {
    pub remote: String,
    pub tag: String,
    pub rm: bool,
}

impl View for BuildRequest {
    type V = BuildRequestView;

    open spec fn view(&self) -> BuildRequestView {
        BuildRequestView { remote: self.remote@, tag: self.tag@, rm: self.rm }
    }
}

/// Spec-level image of one build log chunk.
pub struct LogChunkView {
    pub ok: bool,
    pub text: Option<Seq<char>>,
}

/// One element of the backend's streamed build output: independently
/// success/failure-tagged, with an optional textual payload.
#[derive(Debug)]
pub struct LogChunk {
    pub ok: bool,
    pub text: Option<String>,
}

impl View for LogChunk {
    type V = LogChunkView;

    open spec fn view(&self) -> LogChunkView {
        LogChunkView {
            ok: self.ok,
            text: match self.text {
                Some(t) => Some(t@),
                None => None,
            },
        }
    }
}

/// The views of a chunk sequence.
pub open spec fn chunk_views(cs: Seq<LogChunk>) -> Seq<LogChunkView> {
    cs.map_values(|c: LogChunk| c@)
}

/// Every chunk of the stream reports success.
pub open spec fn all_chunks_ok(cs: Seq<LogChunkView>) -> bool {
    forall|i: int| 0 <= i < cs.len() ==> (#[trigger] cs[i]).ok
}

/// The textual payload of one chunk; a chunk without text contributes
/// nothing.
pub open spec fn chunk_text(c: LogChunkView) -> Seq<char> {
    match c.text {
        Some(t) => t,
        None => Seq::empty(),
    }
}

/// The single log artifact of a successful build: the payloads of all
/// chunks, concatenated in emission order.
pub open spec fn log_of(cs: Seq<LogChunkView>) -> Seq<char>
    decreases cs.len(),
{
    if cs.len() == 0 {
        Seq::empty()
    } else {
        log_of(cs.drop_last()) + chunk_text(cs.last())
    }
}

/// Reduces the backend's streamed build output, eagerly and all-or-nothing:
/// if any chunk reports failure the whole build fails with a backend error
/// and no partial log is returned; otherwise the payloads are concatenated,
/// in emission order, into one log string.
pub fn reduce_build_log(service_id: i32, chunks: &Vec<LogChunk>) -> (r: Result<
    String,
    LifecycleError,
>)
    ensures
        r is Ok <==> all_chunks_ok(chunk_views(chunks@)),
        r is Ok ==> r->Ok_0@ == log_of(chunk_views(chunks@)),
        r is Err ==> r->Err_0 == (LifecycleError::Backend { id: service_id }),
{
    let mut log = String::new();
    let n: usize = chunks.len();
    let mut i: usize = 0;
    while i < n
        invariant
            n == chunks.len(),
            i <= n,
            forall|k: int| 0 <= k < i as int ==> (#[trigger] chunk_views(chunks@)[k]).ok,
            log@ == log_of(chunk_views(chunks@).take(i as int)),
        decreases n - i,
    {
        if !chunks[i].ok {
            proof {
                assert(chunk_views(chunks@)[i as int] == chunks@[i as int]@);
                assert(!(chunk_views(chunks@)[i as int]).ok);
            }
            return Err(LifecycleError::Backend { id: service_id });
        }
        match &chunks[i].text {
            Some(t) => {
                log.append(t.as_str());
            },
            None => {},
        }
        proof {
            let cv = chunk_views(chunks@);
            assert(cv.take(i + 1 as int).drop_last() =~= cv.take(i as int));
            assert(cv.take(i + 1 as int).last() == cv[i as int]);
        }
        i = i + 1;
    }
    proof {
        assert(chunk_views(chunks@).take(n as int) =~= chunk_views(chunks@));
    }
    Ok(log)
}

} // verus!
