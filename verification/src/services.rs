//! The frontend proxy: routes that an external frontend has claimed, the
//! table of captured requests that wait for its answer, and the decisions
//! that take one request from capture to response.
//!
//! The waiting itself is not done here. A caller takes a correlation id with
//! [`FrontendRouteService::call`], reads the body, files the request with
//! [`FrontendRouteService::capture`] together with the sending half of a
//! single-use signal, waits on the receiving half, and turns what happened
//! into a response with [`response_for`]. On a timeout the entry stays in the
//! table until a producer resolves it.

use std::collections::HashMap;
use vstd::prelude::*;
use vstd::string::StrSliceExecFns;
use crate::status::STATUS_BAD_REQUEST;
use crate::status::STATUS_INTERNAL_SERVER_ERROR;
use crate::status::STATUS_OK;
use crate::status::STATUS_REQUEST_TIMEOUT;

verus! {

broadcast use vstd::std_specs::hash::group_hash_axioms;

/// How long a captured request waits for the frontend, in seconds.
pub const FRONTEND_REQUEST_TIMEOUT_SECONDS: u64 = 30;

/// A request as it was captured for the frontend.
#[derive(Debug)]
pub struct FrontendRequest {
    /// The request method, as text.
    pub method: String,
    /// The path, relative to the root: without leading separators.
    pub path: String,
    /// The whole request body.
    pub body: Vec<u8>,
}

/// The mathematical value of a [`FrontendRequest`].
pub struct FrontendRequestView {
    pub method: Seq<char>,
    pub path: Seq<char>,
    pub body: Seq<u8>,
}

impl View for FrontendRequest {
    type V = FrontendRequestView;

    open spec fn view(&self) -> FrontendRequestView {
        FrontendRequestView { method: self.method@, path: self.path@, body: self.body@ }
    }
}

/// One entry of the pending table: a captured request with the sending half
/// of the signal that completes it.
#[derive(Debug)]
pub struct PendingFrontendRequest<S> {
    pub request: FrontendRequest,
    pub signal: S,
}

/// The mathematical value of a [`PendingFrontendRequest`].
pub struct PendingView<S> {
    pub request: FrontendRequestView,
    pub signal: S,
}

impl<S> View for PendingFrontendRequest<S> {
    type V = PendingView<S>;

    open spec fn view(&self) -> PendingView<S> {
        PendingView { request: self.request@, signal: self.signal }
    }
}

/// A pending request as the producer sees it.
#[derive(Debug)]
pub struct PendingApiRequest {
    pub id: u64,
    pub method: String,
    pub path: String,
    pub body: Vec<u8>,
}

/// The mathematical value of a [`PendingApiRequest`].
pub struct PendingApiRequestView {
    pub id: u64,
    pub request: FrontendRequestView,
}

impl View for PendingApiRequest {
    type V = PendingApiRequestView;

    open spec fn view(&self) -> PendingApiRequestView {
        PendingApiRequestView {
            id: self.id,
            request: FrontendRequestView {
                method: self.method@,
                path: self.path@,
                body: self.body@,
            },
        }
    }
}

/// Why the control surface refused a query.
#[derive(Debug, Clone, Copy, PartialEq, Eq, Structural)]
pub enum ApiError {
    /// The gateway is not running.
    ApiServerNotRunning,
}

/// What the proxy decided on a request's arrival.
#[derive(Debug)]
pub enum ProxyStep {
    /// No frontend route claims the path: answer with `status` at once.
    Rejected { status: u16 },
    /// The path is a frontend route: read the body, then capture the request
    /// under `request_id`.
    ReadBody { request_id: u64, method: String, path: String },
}

/// How the wait for the frontend ended.
#[derive(Debug)]
pub enum WaitOutcome {
    /// A producer delivered this payload.
    Delivered(Vec<u8>),
    /// The sending half of the signal was dropped without a payload.
    ChannelBroken,
    /// Nothing arrived within the timeout.
    TimedOut,
}

/// The response that a proxied request is answered with.
#[derive(Debug)]
pub struct ProxyResponse {
    pub status: u16,
    pub body: Vec<u8>,
}

/// The response that each outcome of the wait is owed.
pub open spec fn spec_response_for(outcome: WaitOutcome) -> (u16, Seq<u8>) {
    match outcome {
        WaitOutcome::Delivered(body) => (STATUS_OK, body@),
        WaitOutcome::ChannelBroken => (STATUS_INTERNAL_SERVER_ERROR, Seq::empty()),
        WaitOutcome::TimedOut => (STATUS_REQUEST_TIMEOUT, Seq::empty()),
    }
}

/// Turns the outcome of the wait into the response: the payload with status
/// 200, or an empty body with 500 for a broken signal and 408 for a timeout.
pub fn response_for(outcome: WaitOutcome) -> (response: ProxyResponse)
    ensures
        (response.status, response.body@) == spec_response_for(outcome),
{
    match outcome {
        WaitOutcome::Delivered(body) => ProxyResponse { status: STATUS_OK, body },
        WaitOutcome::ChannelBroken => ProxyResponse {
            status: STATUS_INTERNAL_SERVER_ERROR,
            body: Vec::new(),
        },
        WaitOutcome::TimedOut => ProxyResponse { status: STATUS_REQUEST_TIMEOUT, body: Vec::new() },
    }
}

/// A proxied request is answered with 408 exactly when its wait timed out,
/// with 500 exactly when its signal broke, and with 200 exactly when a
/// payload was delivered.
pub proof fn lemma_status_tells_outcome(outcome: WaitOutcome)
    ensures
        spec_response_for(outcome).0 == STATUS_REQUEST_TIMEOUT <==> outcome is TimedOut,
        spec_response_for(outcome).0 == STATUS_INTERNAL_SERVER_ERROR <==> outcome is ChannelBroken,
        spec_response_for(outcome).0 == STATUS_OK <==> outcome is Delivered,
{
}

/// Where the leading run of `/` that starts at `from` ends.
pub open spec fn leading_separators(path: Seq<char>, from: int) -> int
    decreases path.len() - from,
{
    if 0 <= from < path.len() && path[from] == '/' {
        leading_separators(path, from + 1)
    } else {
        from
    }
}

/// A request path made relative to the root: every leading `/` is gone.
pub open spec fn spec_normalize_path(path: Seq<char>) -> Seq<char> {
    path.subrange(leading_separators(path, 0), path.len() as int)
}

/// A path is its leading run of `/` followed by its normalized form, which
/// does not start with `/`.
pub proof fn lemma_normalized_path_is_relative(path: Seq<char>)
    ensures
        spec_normalize_path(path).len() == 0 || spec_normalize_path(path)[0] != '/',
        spec_normalize_path(path).len() <= path.len(),
        forall|k: int|
            0 <= k < path.len() - spec_normalize_path(path).len() ==> #[trigger] path[k] == '/',
        path == path.subrange(0, path.len() - spec_normalize_path(path).len())
            + spec_normalize_path(path),
{
    lemma_leading_separators(path, 0);
    let cut = leading_separators(path, 0);
    assert(path =~= path.subrange(0, cut) + path.subrange(cut, path.len() as int));
}

proof fn lemma_leading_separators(path: Seq<char>, from: int)
    requires
        0 <= from <= path.len(),
    ensures
        from <= leading_separators(path, from) <= path.len(),
        forall|k: int| from <= k < leading_separators(path, from) ==> #[trigger] path[k] == '/',
        leading_separators(path, from) < path.len() ==> path[leading_separators(path, from)]
            != '/',
    decreases path.len() - from,
{
    if from < path.len() && path[from] == '/' {
        lemma_leading_separators(path, from + 1);
    }
}

/// Strips every leading `/` from a request path.
pub fn normalize_path(path: &str) -> (relative: String)
    ensures
        relative@ == spec_normalize_path(path@),
{
    let n: usize = path.unicode_len();
    let mut i: usize = 0;
    while i < n && path.get_char(i) == '/'
        invariant
            i <= n == path@.len(),
            leading_separators(path@, i as int) == leading_separators(path@, 0),
        decreases n - i,
    {
        i += 1;
    }
    path.substring_char(i, n).to_owned()
}

/// Whether `path` is one of `routes`, letter for letter.
pub open spec fn route_listed(routes: Seq<String>, path: Seq<char>) -> bool {
    exists|i: int| 0 <= i < routes.len() && (#[trigger] routes[i])@ == path
}

/// The gateway's side of the frontend proxy: the route registry, the pending
/// table and the last correlation id that was handed out.
pub struct FrontendRouteService<S> {
    routes: Vec<String>,
    pending_requests: HashMap<u64, PendingFrontendRequest<S>>,
    current_id: u64,
}

fn copy_bytes(bytes: &Vec<u8>) -> (out: Vec<u8>)
    ensures
        out@ == bytes@,
{
    let mut out: Vec<u8> = Vec::new();
    let mut i: usize = 0;
    while i < bytes.len()
        invariant
            i <= bytes@.len(),
            out@ == bytes@.subrange(0, i as int),
        decreases bytes.len() - i,
    {
        out.push(bytes[i]);
        i += 1;
        assert(out@ =~= bytes@.subrange(0, i as int));
    }
    assert(out@ =~= bytes@);
    out
}

impl<S> FrontendRouteService<S> {
    /// The registered routes, in the order in which they were added.
    pub closed spec fn routes(&self) -> Seq<String> {
        self.routes@
    }

    /// The pending table: the captured requests that wait, by correlation
    /// id.
    pub closed spec fn pending(&self) -> Map<u64, PendingView<S>> {
        self.pending_requests@.map_values(|e: PendingFrontendRequest<S>| e@)
    }

    /// The last correlation id that was handed out; zero before the first.
    pub closed spec fn minted(&self) -> u64 {
        self.current_id
    }

    /// The service is well formed: every id in the table has been handed
    /// out. Every service is, that was made by
    /// [`FrontendRouteService::new`] and changed by the methods below.
    pub open spec fn wf(&self) -> bool {
        forall|id: u64| #[trigger] self.pending().contains_key(id) ==> 1 <= id <= self.minted()
    }

    /// Whether the table holds an entry under `id`.
    pub open spec fn is_pending(&self, id: u64) -> bool {
        self.pending().contains_key(id)
    }

    /// A service over the given routes, with an empty table and no id handed
    /// out yet.
    pub fn new(routes: Vec<String>) -> (service: Self)
        ensures
            service.wf(),
            service.routes() == routes@,
            service.pending() == Map::<u64, PendingView<S>>::empty(),
            service.minted() == 0,
    {
        let service = FrontendRouteService {
            routes,
            pending_requests: HashMap::new(),
            current_id: 0,
        };
        assert(service.pending() =~= Map::<u64, PendingView<S>>::empty());
        service
    }

    /// The last correlation id that was handed out.
    pub fn current_id(&self) -> (id: u64)
        ensures
            id == self.minted(),
    {
        self.current_id
    }

    /// How many requests are pending.
    pub fn pending_len(&self) -> (len: usize)
        ensures
            len == self.pending().dom().len(),
    {
        assert(self.pending().dom() =~= self.pending_requests@.dom());
        self.pending_requests.len()
    }

    /// Adds a route that the frontend claims.
    pub fn register_api_route(&mut self, path: String)
        ensures
            final(self).wf() == old(self).wf(),
            final(self).routes() == old(self).routes().push(path),
            final(self).pending() == old(self).pending(),
            final(self).minted() == old(self).minted(),
    {
        self.routes.push(path);
        assert(self.pending() == old(self).pending());
        assert(self.minted() == old(self).minted());
    }

    /// Whether `path` is a registered frontend route.
    pub fn is_registered(&self, path: &String) -> (listed: bool)
        ensures
            listed == route_listed(self.routes(), path@),
    {
        let mut i: usize = 0;
        while i < self.routes.len()
            invariant
                i <= self.routes@.len(),
                forall|k: int| 0 <= k < i ==> (#[trigger] self.routes@[k])@ != path@,
            decreases self.routes.len() - i,
        {
            if self.routes[i] == *path {
                return true;
            }
            i += 1;
        }
        false
    }

    /// Takes in a request for `raw_path`. Where no route claims the path,
    /// the request is rejected with status 400, whatever the state of the
    /// service; else the caller is to read the body and capture the request
    /// under a fresh correlation id, one above the last. The table is left
    /// as it was either way. An id is used up in both cases, as long as one
    /// is left.
    pub fn call(&mut self, method: String, raw_path: &str) -> (step: ProxyStep)
        requires
            old(self).wf(),
            route_listed(old(self).routes(), spec_normalize_path(raw_path@)) ==> old(
                self,
            ).minted() < u64::MAX,
        ensures
            final(self).wf(),
            final(self).minted() == if old(self).minted() < u64::MAX {
                old(self).minted() + 1
            } else {
                old(self).minted() as int
            },
            final(self).routes() == old(self).routes(),
            final(self).pending() == old(self).pending(),
            match step {
                ProxyStep::Rejected { status } => {
                    &&& status == STATUS_BAD_REQUEST
                    &&& !route_listed(old(self).routes(), spec_normalize_path(raw_path@))
                },
                ProxyStep::ReadBody { request_id, method: kept, path } => {
                    &&& request_id == old(self).minted() + 1
                    &&& request_id == final(self).minted()
                    &&& !final(self).is_pending(request_id)
                    &&& kept == method
                    &&& path@ == spec_normalize_path(raw_path@)
                    &&& route_listed(old(self).routes(), path@)
                },
            },
    {
        let path = normalize_path(raw_path);
        let listed = self.is_registered(&path);
        if self.current_id < u64::MAX {
            self.current_id = self.current_id + 1;
        }
        assert(self.pending() == old(self).pending());
        assert forall|id: u64| #[trigger] self.pending().contains_key(id) implies 1 <= id
            <= self.minted() by {
            assert(old(self).pending().contains_key(id));
        }
        if !listed {
            return ProxyStep::Rejected { status: STATUS_BAD_REQUEST };
        }
        ProxyStep::ReadBody { request_id: self.current_id, method, path }
    }

    /// Files a captured request under `request_id`, an id that was handed
    /// out, with the sending half of its signal. An entry that the table
    /// already holds under that id is replaced and its signal handed back.
    /// No other entry is touched.
    pub fn capture(&mut self, request_id: u64, request: FrontendRequest, signal: S) -> (replaced:
        Option<S>)
        requires
            old(self).wf(),
            1 <= request_id <= old(self).minted(),
        ensures
            final(self).wf(),
            final(self).routes() == old(self).routes(),
            final(self).minted() == old(self).minted(),
            final(self).pending() == old(self).pending().insert(
                request_id,
                PendingView { request: request@, signal },
            ),
            replaced == if old(self).is_pending(request_id) {
                Some(old(self).pending()[request_id].signal)
            } else {
                None
            },
    {
        let entry = PendingFrontendRequest { request, signal };
        let ghost before = self.pending();
        let previous = self.pending_requests.insert(request_id, entry);
        assert(self.pending() =~= before.insert(request_id, entry@));
        match previous {
            Some(held) => Some(held.signal),
            None => None,
        }
    }

    /// Resolves the request under `id`: its entry leaves the table and the
    /// sending half of its signal is handed out, for the caller to deliver
    /// the payload through. Where the table holds no such entry (the id was
    /// never captured, or is resolved already) nothing changes and nothing
    /// is handed out. No other entry is touched in either case.
    pub fn send_api_response(&mut self, id: u64) -> (signal: Option<S>)
        requires
            old(self).wf(),
        ensures
            final(self).wf(),
            final(self).routes() == old(self).routes(),
            final(self).minted() == old(self).minted(),
            final(self).pending() == old(self).pending().remove(id),
            signal == if old(self).is_pending(id) {
                Some(old(self).pending()[id].signal)
            } else {
                None
            },
            !old(self).is_pending(id) ==> final(self).pending() == old(self).pending(),
            forall|other: u64|
                other != id ==> (#[trigger] final(self).is_pending(other)) == old(self).is_pending(
                    other,
                ) && (old(self).is_pending(other) ==> final(self).pending()[other] == old(
                    self,
                ).pending()[other]),
    {
        let ghost before = self.pending();
        let removed = self.pending_requests.remove(&id);
        assert(self.pending() =~= before.remove(id));
        proof {
            if !before.contains_key(id) {
                assert(before.remove(id) =~= before);
            }
        }
        match removed {
            Some(held) => Some(held.signal),
            None => None,
        }
    }

    /// Lists the pending requests, each once, in no particular order. Fails
    /// where the gateway is not running.
    pub fn get_pending_api_requests(&self, server_running: bool) -> (listed: Result<
        Vec<PendingApiRequest>,
        ApiError,
    >)
        ensures
            !server_running ==> listed == Err::<Vec<PendingApiRequest>, ApiError>(
                ApiError::ApiServerNotRunning,
            ),
            server_running ==> listed is Ok && listing_of(listed->Ok_0@, self.pending()),
    {
        if !server_running {
            return Err(ApiError::ApiServerNotRunning);
        }
        let mut out: Vec<PendingApiRequest> = Vec::new();
        assert(self.pending().dom() =~= self.pending_requests@.dom());
        for pair in it: self.pending_requests.iter()
            invariant
                out@.len() == it.index(),
                it.seq().len() == self.pending_requests@.dom().len(),
                it.seq().no_duplicates(),
                forall|j: int|
                    0 <= j < it.seq().len() ==> self.pending_requests@.contains_key(
                        *(#[trigger] it.seq()[j]).0,
                    ) && self.pending_requests@[*it.seq()[j].0] == *it.seq()[j].1,
                forall|j: int|
                    0 <= j < out@.len() ==> (#[trigger] out@[j]).id == *it.seq()[j].0
                        && out@[j]@.request == (*it.seq()[j].1).request@,
                forall|i: int, j: int| 0 <= i < j < out@.len() ==> out@[i].id != out@[j].id,
                forall|id: u64| #[trigger]
                    self.pending_requests@.contains_key(id) ==> exists|j: int|
                        0 <= j < it.seq().len() && *(#[trigger] it.seq()[j]).0 == id && (j
                            < out@.len() ==> out@[j].id == id),
        {
            let ghost before = out@;
            let entry = pair.1;
            out.push(
                PendingApiRequest {
                    id: *pair.0,
                    method: entry.request.method.clone(),
                    path: entry.request.path.clone(),
                    body: copy_bytes(&entry.request.body),
                },
            );
            assert forall|i: int, j: int| 0 <= i < j < out@.len() implies out@[i].id
                != out@[j].id by {
                if out@[i].id == out@[j].id {
                    assert(it.seq()[i] == it.seq()[j]);
                }
            }
            assert forall|id: u64| #[trigger]
                self.pending_requests@.contains_key(id) implies exists|j: int|
                0 <= j < it.seq().len() && *(#[trigger] it.seq()[j]).0 == id && (j < out@.len()
                    ==> out@[j].id == id) by {
                let j = choose|j: int|
                    0 <= j < it.seq().len() && *(#[trigger] it.seq()[j]).0 == id && (j
                        < before.len() ==> before[j].id == id);
                if j < before.len() {
                    assert(out@[j] == before[j]);
                }
            }
        }
        assert forall|id: u64| #[trigger] self.pending().contains_key(id) implies exists|j: int|
            0 <= j < out@.len() && (#[trigger] out@[j]).id == id by {
            assert(self.pending_requests@.contains_key(id));
            let j = choose|j: int| 0 <= j < out@.len() && out@[j].id == id;
            assert(out@[j].id == id);
        }
        Ok(out)
    }
}

/// Whether `listed` lists the table `pending`: it has as many items as the
/// table has entries, no two items share an id, each item holds the id and
/// the request of an entry, and every entry has its item.
pub open spec fn listing_of<S>(
    listed: Seq<PendingApiRequest>,
    pending: Map<u64, PendingView<S>>,
) -> bool {
    &&& listed.len() == pending.dom().len()
    &&& forall|i: int, j: int| 0 <= i < j < listed.len() ==> listed[i].id != listed[j].id
    &&& forall|j: int|
        0 <= j < listed.len() ==> pending.contains_key((#[trigger] listed[j]).id)
            && listed[j]@.request == pending[listed[j].id].request
    &&& forall|id: u64| #[trigger]
        pending.contains_key(id) ==> exists|j: int|
            0 <= j < listed.len() && (#[trigger] listed[j]).id == id
}

} // verus!
