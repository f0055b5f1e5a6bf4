//! The coordinator's operations: each checks the caller's credential, then
//! works on the catalog, the registry and the queue.

use vstd::prelude::*;
use vstd::string::StringExecFns;
use crate::auth::{AuthGate, Role, admitted};
use crate::catalog::{
    FilterView, Package, PackageCatalog, PackageView, PkgFilter, Release, Status, has_package, imported,
    matching, package_position, package_views, release_views, text_view, with_reset, with_status,
};
use crate::queue::{
    DispatchQueue, ItemView, QueueItem, entry_views, held_by, leased, popped, position_of,
    pushed_all, reclaimed, views, without_packages,
};
use crate::registry::{Worker, WorkerRegistry, WorkerView, copy_text, identified, swept, with_label, worker_views};

verus! {

/// What a request carries besides its payload.
pub struct Request {
    /// The credential presented for the admin role.
    pub admin_secret: Option<String>,
    /// The credential presented for the worker role.
    pub worker_secret: Option<String>,
    /// The key by which the worker is known.
    pub worker_key: Option<String>,
    /// The address the request came from.
    pub peer_addr: Option<String>,
}

/// One header line of a request.
pub struct Header {
    /// The header's name, in lower case.
    pub name: String,
    /// The header's value; `None` where it is not text.
    pub value: Option<String>,
}

/// A request as it arrives: its header lines, in order, and the address
/// of the peer.
pub struct RawRequest {
    pub headers: Vec<Header>,
    pub peer_addr: Option<String>,
}

/// Why a header could not be read.
#[derive(Debug, Clone, Copy, PartialEq, Eq, Structural)]
pub enum HeaderError {
    /// The request has no header of that name.
    Missing,
    /// The header's value is not text.
    Undecodable,
}

/// `i` is the position of the first header named `key`.
pub open spec fn first_header(headers: Seq<Header>, key: Seq<char>, i: int) -> bool {
    &&& 0 <= i < headers.len()
    &&& headers[i].name@ == key
    &&& forall|j: int| 0 <= j < i ==> (#[trigger] headers[j]).name@ != key
}

/// The value of the first header named `key`, or why there is none.
pub open spec fn header_value(headers: Seq<Header>, key: Seq<char>) -> Result<Seq<char>, HeaderError> {
    if exists|i: int| first_header(headers, key, i) {
        match headers[choose|i: int| first_header(headers, key, i)].value {
            Some(v) => Ok(v@),
            None => Err(HeaderError::Undecodable),
        }
    } else {
        Err(HeaderError::Missing)
    }
}

/// A header's value where it could be read.
pub open spec fn readable(r: Result<Seq<char>, HeaderError>) -> Option<Seq<char>> {
    match r {
        Ok(v) => Some(v),
        Err(_) => None,
    }
}

/// The value of a header that was read, or its error.
pub open spec fn read_value(r: Result<&str, HeaderError>) -> Result<Seq<char>, HeaderError> {
    match r {
        Ok(v) => Ok(v@),
        Err(e) => Err(e),
    }
}

/// The name of the header that carries the admin credential.
pub open spec fn admin_header() -> Seq<char> {
    "x-auth-cookie"@
}

/// The name of the header that carries the worker credential.
pub open spec fn signup_header() -> Seq<char> {
    "x-signup-secret"@
}

/// The name of the header that carries the worker's key.
pub open spec fn worker_key_header() -> Seq<char> {
    "x-worker-key"@
}

/// The value of the first header named `key`.
pub fn header<'a>(req: &'a RawRequest, key: &str) -> (r: Result<&'a str, HeaderError>)
    ensures
        read_value(r) == header_value(req.headers@, key@),
{
    let wanted = key.to_owned();
    let n: usize = req.headers.len();
    let mut i: usize = 0;
    while i < n
        invariant
            i <= n,
            n == req.headers.len(),
            wanted@ == key@,
            forall|j: int| 0 <= j < i ==> (#[trigger] req.headers@[j]).name@ != key@,
        decreases n - i,
    {
        if req.headers[i].name == wanted {
            proof {
                assert(first_header(req.headers@, key@, i as int));
                let c = choose|c: int| first_header(req.headers@, key@, c);
                assert(c == i);
            }
            return match &req.headers[i].value {
                Some(v) => Ok(v.as_str()),
                None => Err(HeaderError::Undecodable),
            };
        }
        i = i + 1;
    }
    Err(HeaderError::Missing)
}

/// A header's value as an owned text, where it could be read.
fn owned(r: Result<&str, HeaderError>) -> (out: Option<String>)
    ensures
        text_view(out) == readable(read_value(r)),
{
    match r {
        Ok(v) => Some(v.to_owned()),
        Err(_) => None,
    }
}

impl Request {
    /// Reads the credentials and the worker's key from the headers of a
    /// request.
    pub fn read(raw: &RawRequest) -> (req: Request)
        ensures
            text_view(req.admin_secret) == readable(header_value(raw.headers@, admin_header())),
            text_view(req.worker_secret) == readable(header_value(raw.headers@, signup_header())),
            text_view(req.worker_key) == readable(header_value(raw.headers@, worker_key_header())),
            text_view(req.peer_addr) == text_view(raw.peer_addr),
    {
        Request {
            admin_secret: owned(header(raw, "x-auth-cookie")),
            worker_secret: owned(header(raw, "x-signup-secret")),
            worker_key: owned(header(raw, "x-worker-key")),
            peer_addr: copy_text(&raw.peer_addr),
        }
    }
}

/// Why an operation was refused.
#[derive(Debug, Clone, Copy, PartialEq, Eq, Structural)]
pub enum ApiError {
    /// The credential for the role is missing or wrong.
    Forbidden,
    /// A worker request without a worker key.
    MissingWorkerKey,
    /// A worker request whose peer address is not known.
    UnknownPeer,
    /// A new worker could not be registered.
    RegistryFull,
    /// The caller does not hold the lease on the item.
    LeaseMismatch,
    /// The queue could not take every item.
    IdsExhausted,
}

/// A queue item with the data of its package. The package carries the
/// version that was queued, which may differ from the catalog's.
pub struct Job {
    pub item: QueueItem,
    /// `None` where the catalog does not hold the item's package.
    pub package: Option<Package>,
}

/// The mathematical value of a [`Job`].
pub struct JobView {
    pub item: ItemView,
    pub package: Option<PackageView>,
}

impl View for Job {
    type V = JobView;

    open spec fn view(&self) -> JobView {
        JobView {
            item: self.item@,
            package: match self.package {
                Some(p) => Some(p@),
                None => None,
            },
        }
    }
}

/// What a polling worker is told.
pub enum JobAssignment {
    /// Nothing is waiting.
    Nothing,
    /// Rebuild this.
    Rebuild(Job),
}

/// A listing of the queue with the time at which it was made.
pub struct QueueList {
    pub now: i64,
    pub queue: Vec<Job>,
}

/// Selects packages by name, distro, suite and, where given, architecture.
/// A push queues them at `version`, where given, else at their own.
pub struct QueueQuery {
    pub name: String,
    pub distro: String,
    pub suite: String,
    pub architecture: Option<String>,
    pub version: Option<String>,
}

/// The result of a rebuild as a worker reports it.
#[derive(Debug, Clone, Copy, PartialEq, Eq, Structural)]
pub enum Verdict {
    /// The rebuild reproduced the artifact.
    Good,
    /// The rebuild gave something else.
    Bad,
    /// The rebuild could not be carried out.
    Failed,
}

/// The status that a verdict gives the package: good only for a rebuild
/// that reproduced the artifact.
pub open spec fn status_after(v: Verdict) -> Status {
    match v {
        Verdict::Good => Status::Good,
        _ => Status::Bad,
    }
}

/// The coordinator's state.
pub struct Coordinator {
    pub auth: AuthGate,
    pub catalog: PackageCatalog,
    pub workers: WorkerRegistry,
    pub queue: DispatchQueue,
    /// A lease whose last ping is older than this many seconds has expired.
    pub lease_timeout: i64,
    /// A worker whose last ping is older than this many seconds is offline.
    pub offline_timeout: i64,
}

/// The mathematical value of a [`Coordinator`]: what its operations change.
pub struct CoordinatorView {
    pub catalog: Seq<PackageView>,
    pub next_package: u64,
    pub workers: Seq<WorkerView>,
    pub next_worker: u64,
    pub queue: Seq<ItemView>,
    pub next_item: u64,
}

impl View for Coordinator {
    type V = CoordinatorView;

    open spec fn view(&self) -> CoordinatorView {
        CoordinatorView {
            catalog: self.catalog@,
            next_package: self.catalog.fresh_id(),
            workers: self.workers@,
            next_worker: self.workers.fresh_id(),
            queue: self.queue@,
            next_item: self.queue.fresh_id(),
        }
    }
}

/// The item with the data of its package from the catalog.
pub open spec fn job_for(catalog: Seq<PackageView>, item: ItemView) -> JobView {
    JobView {
        item,
        package: if has_package(catalog, item.package_id) {
            Some(PackageView { version: item.version, ..catalog[package_position(catalog, item.package_id)] })
        } else {
            None
        },
    }
}

/// The views of a list of jobs.
pub open spec fn job_views(v: Seq<Job>) -> Seq<JobView> {
    Seq::new(v.len(), |i: int| v[i]@)
}

/// The first `limit` items of the queue, each with its package data.
pub open spec fn listing(catalog: Seq<PackageView>, queue: Seq<ItemView>, limit: usize) -> Seq<JobView> {
    Seq::new(if limit <= queue.len() { limit as nat } else { queue.len() }, |i: int| job_for(catalog, queue[i]))
}

/// The filter that a queue query stands for.
pub open spec fn query_filter(q: QueueQuery) -> FilterView {
    FilterView {
        name: Some(q.name@),
        status: None,
        distro: Some(q.distro@),
        suite: Some(q.suite@),
        architecture: text_view(q.architecture),
    }
}

/// What is queued for each of `pkgs`: its id, and `version` or else its own
/// version.
pub open spec fn entries_for(pkgs: Seq<PackageView>, version: Option<Seq<char>>) -> Seq<(u64, Seq<char>)> {
    Seq::new(
        pkgs.len(),
        |i: int|
            (
                pkgs[i].id,
                match version {
                    Some(v) => v,
                    None => pkgs[i].version,
                },
            ),
    )
}

/// The ids of `pkgs`, in the same order.
pub open spec fn ids_of(pkgs: Seq<PackageView>) -> Seq<u64> {
    Seq::new(pkgs.len(), |i: int| pkgs[i].id)
}

/// What a worker's activity label says while it rebuilds a package.
pub open spec fn busy_label(name: Seq<char>, version: Seq<char>) -> Seq<char> {
    "working hard on "@ + name + " "@ + version
}

/// The label of a worker that was handed `job`.
pub open spec fn label_for(job: Option<JobView>) -> Option<Seq<char>> {
    match job {
        Some(JobView { package: Some(p), .. }) => Some(busy_label(p.name, p.version)),
        _ => None,
    }
}

/// Why a worker request is turned away before the worker is looked up, if
/// it is.
pub open spec fn worker_refusal(gate: AuthGate, req: Request) -> Option<ApiError> {
    if !admitted(gate, Role::Worker, req.worker_secret) {
        Some(ApiError::Forbidden)
    } else {
        worker_unnamed(req)
    }
}

/// The state after a worker request has been admitted and its worker
/// looked up, and that worker, if one could be had.
pub open spec fn contacted(s: CoordinatorView, req: Request, now: i64) -> (CoordinatorView, Option<WorkerView>) {
    let (workers, next_worker, w) = identified(s.workers, s.next_worker, req.worker_key->0@, req.peer_addr->0@, now);
    (CoordinatorView { workers, next_worker, ..s }, w)
}

impl Coordinator {
    /// The invariant of the state's parts.
    pub open spec fn wf(&self) -> bool {
        self.catalog.wf() && self.workers.wf() && self.queue.wf()
    }

    /// The secrets and the timeouts are those of `other`.
    pub open spec fn same_config(&self, other: &Coordinator) -> bool {
        &&& self.auth.admin_secret@ == other.auth.admin_secret@
        &&& self.auth.worker_secret@ == other.auth.worker_secret@
        &&& self.lease_timeout == other.lease_timeout
        &&& self.offline_timeout == other.offline_timeout
    }

    /// A coordinator that knows no package and no worker, with an empty
    /// queue.
    pub fn new(auth: AuthGate, lease_timeout: i64, offline_timeout: i64) -> (c: Coordinator)
        ensures
            c.wf(),
            c.auth == auth,
            c.lease_timeout == lease_timeout,
            c.offline_timeout == offline_timeout,
            c@.catalog.len() == 0 && c@.workers.len() == 0 && c@.queue.len() == 0,
    {
        Coordinator {
            auth,
            catalog: PackageCatalog::new(),
            workers: WorkerRegistry::new(),
            queue: DispatchQueue::new(),
            lease_timeout,
            offline_timeout,
        }
    }

    /// The item with the data of its package.
    pub fn enrich(&self, item: QueueItem) -> (job: Job)
        requires
            self.wf(),
        ensures
            job@ == job_for(self.catalog@, item@),
    {
        let package = match self.catalog.get(item.package_id) {
            Some(p) => {
                let mut p = p;
                p.version = item.version.clone();
                Some(p)
            },
            None => None,
        };
        Job { item, package }
    }

    /// Admits a worker request and looks its worker up, registering it on
    /// first contact.
    pub fn admit_worker(&mut self, req: &Request, now: i64) -> (r: Result<Worker, ApiError>)
        requires
            old(self).wf(),
        ensures
            final(self).wf(),
            final(self).same_config(old(self)),
            match worker_refusal(old(self).auth, *req) {
                Some(e) => r == Err::<Worker, ApiError>(e) && final(self)@ == old(self)@,
                None => final(self)@ == contacted(old(self)@, *req, now).0 && match contacted(
                    old(self)@,
                    *req,
                    now,
                ).1 {
                    Some(w) => r is Ok && r->Ok_0@ == w,
                    None => r == Err::<Worker, ApiError>(ApiError::RegistryFull),
                },
            },
    {
        if self.auth.check(Role::Worker, &req.worker_secret).is_err() {
            return Err(ApiError::Forbidden);
        }
        get_worker_from_request(self, req, now)
    }
}

/// Why the worker of a request cannot be looked up, if it cannot.
pub open spec fn worker_unnamed(req: Request) -> Option<ApiError> {
    if req.worker_key is None {
        Some(ApiError::MissingWorkerKey)
    } else if req.peer_addr is None {
        Some(ApiError::UnknownPeer)
    } else {
        None
    }
}

/// Looks up the worker that a request names by its key, registering it on
/// first contact from the request's peer address, and renews its last
/// ping.
pub fn get_worker_from_request(state: &mut Coordinator, req: &Request, now: i64) -> (r: Result<Worker, ApiError>)
    requires
        old(state).wf(),
    ensures
        final(state).wf(),
        final(state).same_config(old(state)),
        match worker_unnamed(*req) {
            Some(e) => r == Err::<Worker, ApiError>(e) && final(state)@ == old(state)@,
            None => final(state)@ == contacted(old(state)@, *req, now).0 && match contacted(
                old(state)@,
                *req,
                now,
            ).1 {
                Some(w) => r is Ok && r->Ok_0@ == w,
                None => r == Err::<Worker, ApiError>(ApiError::RegistryFull),
            },
        },
{
    match (&req.worker_key, &req.peer_addr) {
        (None, _) => Err(ApiError::MissingWorkerKey),
        (Some(_), None) => Err(ApiError::UnknownPeer),
        (Some(key), Some(addr)) => match state.workers.identify(key, addr, now) {
            Ok(w) => Ok(w),
            Err(_) => Err(ApiError::RegistryFull),
        },
    }
}

/// What is queued for each of `pkgs`.
pub fn entries(pkgs: &Vec<Package>, version: &Option<String>) -> (out: Vec<(u64, String)>)
    ensures
        entry_views(out@) == entries_for(package_views(pkgs@), text_view(*version)),
{
    let mut out: Vec<(u64, String)> = Vec::new();
    let mut i: usize = 0;
    while i < pkgs.len()
        invariant
            i <= pkgs.len(),
            out.len() == i,
            forall|j: int| 0 <= j < i ==> entry_views(out@)[j] == entries_for(
                package_views(pkgs@),
                text_view(*version),
            )[j],
        decreases pkgs.len() - i,
    {
        let v = match version {
            Some(v) => v.clone(),
            None => pkgs[i].version.clone(),
        };
        let ghost prev = entry_views(out@);
        out.push((pkgs[i].id, v));
        proof {
            assert forall|j: int| 0 <= j < i + 1 implies entry_views(out@)[j] == entries_for(
                package_views(pkgs@),
                text_view(*version),
            )[j] by {
                if j < i {
                    assert(entry_views(out@)[j] == prev[j]);
                }
            }
        }
        i = i + 1;
    }
    proof {
        assert(entry_views(out@) =~= entries_for(package_views(pkgs@), text_view(*version)));
    }
    out
}

/// The ids of `pkgs`.
pub fn package_ids(pkgs: &Vec<Package>) -> (out: Vec<u64>)
    ensures
        out@ == ids_of(package_views(pkgs@)),
{
    let mut out: Vec<u64> = Vec::new();
    let mut i: usize = 0;
    while i < pkgs.len()
        invariant
            i <= pkgs.len(),
            out.len() == i,
            forall|j: int| 0 <= j < i ==> out@[j] == pkgs@[j].id,
        decreases pkgs.len() - i,
    {
        out.push(pkgs[i].id);
        i = i + 1;
    }
    proof {
        assert(out@ =~= ids_of(package_views(pkgs@)));
    }
    out
}

/// The filter that a queue query stands for.
pub fn filter_of(query: &QueueQuery) -> (f: PkgFilter)
    ensures
        f@ == query_filter(*query),
{
    PkgFilter {
        name: Some(query.name.clone()),
        status: None,
        distro: Some(query.distro.clone()),
        suite: Some(query.suite.clone()),
        architecture: copy_text(&query.architecture),
    }
}

/// Lists all workers, for an administrator, after the staleness sweep.
pub fn list_workers(state: &mut Coordinator, req: &Request, now: i64) -> (r: Result<Vec<Worker>, ApiError>)
    requires
        old(state).wf(),
    ensures
        final(state).wf(),
        final(state).same_config(old(state)),
        r is Ok <==> admitted(old(state).auth, Role::Admin, req.admin_secret),
        r is Err ==> r == Err::<Vec<Worker>, ApiError>(ApiError::Forbidden) && final(state)@ == old(state)@,
        r is Ok ==> final(state)@ == (CoordinatorView {
            workers: swept(old(state)@.workers, now, old(state).offline_timeout),
            ..old(state)@
        }) && worker_views(r->Ok_0@) == final(state)@.workers,
{
    if state.auth.check(Role::Admin, &req.admin_secret).is_err() {
        return Err(ApiError::Forbidden);
    }
    let timeout = state.offline_timeout;
    Ok(state.workers.list(now, timeout))
}

/// Imports, for an administrator, each of `releases` into the catalog. A
/// release for which no package id is left is passed over.
pub fn sync_work(state: &mut Coordinator, req: &Request, releases: &Vec<Release>) -> (r: Result<
    JobAssignment,
    ApiError,
>)
    requires
        old(state).wf(),
    ensures
        final(state).wf(),
        final(state).same_config(old(state)),
        r is Ok <==> admitted(old(state).auth, Role::Admin, req.admin_secret),
        r is Err ==> (r matches Err(ApiError::Forbidden)) && final(state)@ == old(state)@,
        r is Ok ==> (r matches Ok(JobAssignment::Nothing)) && final(state)@ == (CoordinatorView {
            catalog: imported(old(state)@.catalog, old(state)@.next_package, release_views(releases@)).0,
            next_package: imported(old(state)@.catalog, old(state)@.next_package, release_views(releases@)).1,
            ..old(state)@
        }),
{
    if state.auth.check(Role::Admin, &req.admin_secret).is_err() {
        return Err(ApiError::Forbidden);
    }
    state.catalog.import(releases);
    Ok(JobAssignment::Nothing)
}

/// Lists the packages that pass `filter`. Open to everyone.
pub fn list_pkgs(state: &Coordinator, filter: &PkgFilter) -> (r: Vec<Package>)
    ensures
        package_views(r@) == matching(state.catalog@, filter@),
{
    state.catalog.list(filter)
}

/// Lists the queue as it stands at `now`: expired leases are cleared, then
/// the first `limit` items are returned, oldest first, each with its
/// package data. Open to everyone.
pub fn list_queue_at(state: &mut Coordinator, limit: usize, now: i64) -> (r: QueueList)
    requires
        old(state).wf(),
    ensures
        final(state).wf(),
        final(state).same_config(old(state)),
        final(state)@ == (CoordinatorView {
            queue: reclaimed(old(state)@.queue, now, old(state).lease_timeout),
            ..old(state)@
        }),
        r.now == now,
        job_views(r.queue@) == listing(final(state)@.catalog, final(state)@.queue, limit),
{
    let timeout = state.lease_timeout;
    state.queue.reclaim_stale(now, timeout);
    let items = state.queue.list(limit);
    let ghost shown = views(items@);
    let mut queue: Vec<Job> = Vec::new();
    let mut items = items;
    let n: usize = items.len();
    let mut i: usize = n;
    while i > 0
        invariant
            i <= n,
            state.wf(),
            items.len() == i,
            queue.len() == n - i,
            shown.len() == n,
            views(items@) == shown.take(i as int),
            forall|j: int| 0 <= j < n - i ==> (#[trigger] queue[j])@ == job_for(state.catalog@, shown[n - 1 - j]),
        decreases i,
    {
        let item = items.pop().unwrap();
        proof {
            assert(views(items@) =~= shown.take(i - 1));
            assert(item@ == shown.take(i as int)[i - 1]);
        }
        let job = state.enrich(item);
        queue.push(job);
        i = i - 1;
    }
    let mut ordered: Vec<Job> = Vec::new();
    let mut k: usize = n;
    while k > 0
        invariant
            k <= n,
            queue.len() == k,
            ordered.len() == n - k,
            shown.len() == n,
            forall|j: int| 0 <= j < k ==> (#[trigger] queue[j])@ == job_for(state.catalog@, shown[n - 1 - j]),
            forall|j: int| 0 <= j < n - k ==> (#[trigger] ordered[j])@ == job_for(state.catalog@, shown[j]),
        decreases k,
    {
        let job = queue.pop().unwrap();
        ordered.push(job);
        k = k - 1;
    }
    proof {
        assert(job_views(ordered@) =~= listing(state@.catalog, state@.queue, limit));
    }
    QueueList { now, queue: ordered }
}

/// Lists the queue as it stands now; see [`list_queue_at`]. The time is
/// read from the clock, so the result holds for some `now`.
pub fn list_queue(state: &mut Coordinator, limit: usize) -> (r: QueueList)
    requires
        old(state).wf(),
    ensures
        final(state).wf(),
        final(state).same_config(old(state)),
        final(state)@ == (CoordinatorView {
            queue: reclaimed(old(state)@.queue, r.now, old(state).lease_timeout),
            ..old(state)@
        }),
        job_views(r.queue@) == listing(final(state)@.catalog, final(state)@.queue, limit),
{
    let now = crate::clock::unix_now();
    list_queue_at(state, limit, now)
}

/// Queues, for an administrator, every package that the query selects, at
/// the query's version or else at the package's own. Items already queued
/// for the same package and version do not stand in the way.
pub fn push_queue(state: &mut Coordinator, req: &Request, query: &QueueQuery, now: i64) -> (r: Result<
    (),
    ApiError,
>)
    requires
        old(state).wf(),
    ensures
        final(state).wf(),
        final(state).same_config(old(state)),
        !admitted(old(state).auth, Role::Admin, req.admin_secret) ==> r == Err::<(), ApiError>(ApiError::Forbidden)
            && final(state)@ == old(state)@,
        admitted(old(state).auth, Role::Admin, req.admin_secret) ==> {
            let wanted = entries_for(
                matching(old(state)@.catalog, query_filter(*query)),
                text_view(query.version),
            );
            let after = pushed_all(old(state)@.queue, old(state)@.next_item, wanted, now);
            &&& final(state)@ == (CoordinatorView { queue: after.0, next_item: after.1, ..old(state)@ })
            &&& r is Ok <==> old(state)@.next_item + wanted.len() <= u64::MAX
            &&& r is Err ==> r == Err::<(), ApiError>(ApiError::IdsExhausted)
        },
{
    if state.auth.check(Role::Admin, &req.admin_secret).is_err() {
        return Err(ApiError::Forbidden);
    }
    let filter = filter_of(query);
    let pkgs = state.catalog.list(&filter);
    let wanted = entries(&pkgs, &query.version);
    if state.queue.push_all(&wanted, now) {
        Ok(())
    } else {
        Err(ApiError::IdsExhausted)
    }
}

/// The value of an assignment: the job, if there is one.
pub open spec fn assigned(r: JobAssignment) -> Option<JobView> {
    match r {
        JobAssignment::Rebuild(job) => Some(job@),
        JobAssignment::Nothing => None,
    }
}

/// The item of a job, if there is one.
pub open spec fn item_of(job: Option<JobView>) -> Option<ItemView> {
    match job {
        Some(j) => Some(j.item),
        None => None,
    }
}

/// Hands a worker the oldest item that nobody holds, after expired leases
/// have been cleared, and records what the worker is now doing.
pub fn pop_queue(state: &mut Coordinator, req: &Request, now: i64) -> (r: Result<JobAssignment, ApiError>)
    requires
        old(state).wf(),
    ensures
        final(state).wf(),
        final(state).same_config(old(state)),
        match worker_refusal(old(state).auth, *req) {
            Some(e) => r == Err::<JobAssignment, ApiError>(e) && final(state)@ == old(state)@,
            None => match contacted(old(state)@, *req, now).1 {
                None => r matches Err(ApiError::RegistryFull) && final(state)@ == contacted(old(state)@, *req, now).0,
                Some(w) => {
                    let mid = contacted(old(state)@, *req, now).0;
                    &&& r is Ok
                    &&& popped(
                        reclaimed(mid.queue, now, old(state).lease_timeout),
                        w.id,
                        now,
                        final(state)@.queue,
                        item_of(assigned(r->Ok_0)),
                    )
                    &&& assigned(r->Ok_0) is Some ==> assigned(r->Ok_0)->0 == job_for(
                        mid.catalog,
                        assigned(r->Ok_0)->0.item,
                    )
                    &&& final(state)@ == (CoordinatorView {
                        queue: final(state)@.queue,
                        workers: with_label(mid.workers, w.id, label_for(assigned(r->Ok_0))),
                        ..mid
                    })
                },
            },
        },
{
    let worker = match state.admit_worker(req, now) {
        Ok(w) => w,
        Err(e) => {
            return Err(e);
        },
    };
    let timeout = state.lease_timeout;
    state.queue.reclaim_stale(now, timeout);
    match state.queue.pop_next(worker.id, now) {
        Some(item) => {
            let job = state.enrich(item);
            let label = match &job.package {
                Some(p) => Some(
                    "working hard on ".to_owned().concat(p.name.as_str()).concat(" ").concat(p.version.as_str()),
                ),
                None => None,
            };
            state.workers.set_status(worker.id, label);
            Ok(JobAssignment::Rebuild(job))
        },
        None => {
            state.workers.set_status(worker.id, None);
            Ok(JobAssignment::Nothing)
        },
    }
}

/// Deletes, for an administrator, every queue item of a package that the
/// query selects, leased or not.
pub fn drop_from_queue(state: &mut Coordinator, req: &Request, query: &QueueQuery) -> (r: Result<(), ApiError>)
    requires
        old(state).wf(),
    ensures
        final(state).wf(),
        final(state).same_config(old(state)),
        r is Ok <==> admitted(old(state).auth, Role::Admin, req.admin_secret),
        r is Err ==> r == Err::<(), ApiError>(ApiError::Forbidden) && final(state)@ == old(state)@,
        r is Ok ==> final(state)@ == (CoordinatorView {
            queue: without_packages(
                old(state)@.queue,
                ids_of(matching(old(state)@.catalog, query_filter(*query))),
            ),
            ..old(state)@
        }),
{
    if state.auth.check(Role::Admin, &req.admin_secret).is_err() {
        return Err(ApiError::Forbidden);
    }
    let filter = filter_of(query);
    let pkgs = state.catalog.list(&filter);
    let ids = package_ids(&pkgs);
    state.queue.drop_for_packages(&ids);
    Ok(())
}

/// Queues again, for an administrator, every package that passes `filter`,
/// at its own version; with `reset`, their status is cleared as well. A
/// package for which no item id is left is not queued, and the call
/// succeeds all the same.
pub fn requeue_pkg(state: &mut Coordinator, req: &Request, filter: &PkgFilter, reset: bool, now: i64) -> (r: Result<
    (),
    ApiError,
>)
    requires
        old(state).wf(),
    ensures
        final(state).wf(),
        final(state).same_config(old(state)),
        r is Ok <==> admitted(old(state).auth, Role::Admin, req.admin_secret),
        r is Err ==> r == Err::<(), ApiError>(ApiError::Forbidden) && final(state)@ == old(state)@,
        r is Ok ==> {
            let pkgs = matching(old(state)@.catalog, filter@);
            let after = pushed_all(old(state)@.queue, old(state)@.next_item, entries_for(pkgs, None), now);
            final(state)@ == (CoordinatorView {
                queue: after.0,
                next_item: after.1,
                catalog: if reset {
                    with_reset(old(state)@.catalog, ids_of(pkgs))
                } else {
                    old(state)@.catalog
                },
                ..old(state)@
            })
        },
{
    if state.auth.check(Role::Admin, &req.admin_secret).is_err() {
        return Err(ApiError::Forbidden);
    }
    let pkgs = state.catalog.list(filter);
    let wanted = entries(&pkgs, &None);
    let _ = state.queue.push_all(&wanted, now);
    if reset {
        let ids = package_ids(&pkgs);
        state.catalog.reset_status(&ids);
    }
    Ok(())
}

/// Renews a worker's lease on item `item_id`. A worker that does not hold
/// the item is turned away, and the item stays as it is.
pub fn ping_build(state: &mut Coordinator, req: &Request, item_id: u64, now: i64) -> (r: Result<(), ApiError>)
    requires
        old(state).wf(),
    ensures
        final(state).wf(),
        final(state).same_config(old(state)),
        match worker_refusal(old(state).auth, *req) {
            Some(e) => r == Err::<(), ApiError>(e) && final(state)@ == old(state)@,
            None => match contacted(old(state)@, *req, now).1 {
                None => r == Err::<(), ApiError>(ApiError::RegistryFull) && final(state)@ == contacted(
                    old(state)@,
                    *req,
                    now,
                ).0,
                Some(w) => {
                    let mid = contacted(old(state)@, *req, now).0;
                    &&& r is Ok <==> held_by(mid.queue, item_id, w.id)
                    &&& r is Err ==> r == Err::<(), ApiError>(ApiError::LeaseMismatch) && final(state)@ == mid
                    &&& r is Ok ==> final(state)@ == (CoordinatorView {
                        queue: mid.queue.update(
                            position_of(mid.queue, item_id),
                            leased(mid.queue[position_of(mid.queue, item_id)], w.id, now),
                        ),
                        ..mid
                    })
                },
            },
        },
{
    let worker = match state.admit_worker(req, now) {
        Ok(w) => w,
        Err(e) => {
            return Err(e);
        },
    };
    match state.queue.ping(item_id, worker.id, now) {
        Ok(()) => Ok(()),
        Err(_) => Err(ApiError::LeaseMismatch),
    }
}

/// Takes a worker's report on item `item_id`: the item's package gets the
/// status that the verdict gives, the item is deleted, and the worker's
/// activity label is cleared. A worker that does not hold the item is
/// turned away: the item and the package stay as they are.
pub fn report_build(state: &mut Coordinator, req: &Request, item_id: u64, verdict: Verdict, now: i64) -> (r: Result<
    (),
    ApiError,
>)
    requires
        old(state).wf(),
    ensures
        final(state).wf(),
        final(state).same_config(old(state)),
        match worker_refusal(old(state).auth, *req) {
            Some(e) => r == Err::<(), ApiError>(e) && final(state)@ == old(state)@,
            None => match contacted(old(state)@, *req, now).1 {
                None => r == Err::<(), ApiError>(ApiError::RegistryFull) && final(state)@ == contacted(
                    old(state)@,
                    *req,
                    now,
                ).0,
                Some(w) => {
                    let mid = contacted(old(state)@, *req, now).0;
                    let at = position_of(mid.queue, item_id);
                    &&& r is Ok <==> held_by(mid.queue, item_id, w.id)
                    &&& r is Err ==> r == Err::<(), ApiError>(ApiError::LeaseMismatch) && final(state)@ == mid
                    &&& r is Ok ==> final(state)@ == (CoordinatorView {
                        queue: mid.queue.remove(at),
                        catalog: with_status(mid.catalog, mid.queue[at].package_id, status_after(verdict)),
                        workers: with_label(mid.workers, w.id, None),
                        ..mid
                    })
                },
            },
        },
{
    let worker = match state.admit_worker(req, now) {
        Ok(w) => w,
        Err(e) => {
            return Err(e);
        },
    };
    match state.queue.complete(item_id, worker.id) {
        Ok(item) => {
            let status = match verdict {
                Verdict::Good => Status::Good,
                _ => Status::Bad,
            };
            state.catalog.set_status(item.package_id, status);
            state.workers.set_status(worker.id, None);
            Ok(())
        },
        Err(_) => Err(ApiError::LeaseMismatch),
    }
}

} // verus!
