use rebuild_dispatch::api::{
    drop_from_queue, entries, filter_of, get_worker_from_request, header, list_pkgs, list_queue, list_queue_at, list_workers, ping_build, pop_queue,
    package_ids, push_queue, report_build, requeue_pkg, sync_work, ApiError, Coordinator, Header, HeaderError,
    JobAssignment, QueueQuery, RawRequest, Request, Verdict,
};
use rebuild_dispatch::auth::{AuthGate, Forbidden, Role};
use rebuild_dispatch::catalog::{opt_filter, passes, same_release, PackageCatalog, PkgFilter, Release, Status};
use rebuild_dispatch::queue::QueueItem;
use rebuild_dispatch::registry::WorkerRegistry;

fn coordinator() -> Coordinator {
    let mut c = Coordinator::new(AuthGate::new("root".to_string(), "signup".to_string()), 60, 300);
    for (name, version, arch) in [("hello", "1.0", "amd64"), ("hello", "1.0", "arm64"), ("zsh", "5.8", "amd64")] {
        c.catalog
            .add(
                name.to_string(),
                version.to_string(),
                "debian".to_string(),
                "main".to_string(),
                arch.to_string(),
                format!("https://example.com/{}_{}_{}.deb", name, version, arch),
            )
            .unwrap();
    }
    c
}

fn admin() -> Request {
    Request { admin_secret: Some("root".to_string()), worker_secret: None, worker_key: None, peer_addr: None }
}

fn worker(key: &str) -> Request {
    Request {
        admin_secret: None,
        worker_secret: Some("signup".to_string()),
        worker_key: Some(key.to_string()),
        peer_addr: Some("10.0.0.1".to_string()),
    }
}

fn query(name: &str, arch: Option<&str>, version: Option<&str>) -> QueueQuery {
    QueueQuery {
        name: name.to_string(),
        distro: "debian".to_string(),
        suite: "main".to_string(),
        architecture: arch.map(|s| s.to_string()),
        version: version.map(|s| s.to_string()),
    }
}

fn no_filter() -> PkgFilter {
    PkgFilter { name: None, status: None, distro: None, suite: None, architecture: None }
}

fn status_of(c: &Coordinator, id: u64) -> Status {
    c.catalog.get(id).unwrap().status
}

#[test]
fn gate_admits_only_the_roles_own_secret() {
    let gate = AuthGate::new("root".to_string(), "signup".to_string());
    assert_eq!(gate.check(Role::Admin, &Some("root".to_string())), Ok(()));
    assert_eq!(gate.check(Role::Worker, &Some("signup".to_string())), Ok(()));
    assert_eq!(gate.check(Role::Admin, &Some("signup".to_string())), Err(Forbidden));
    assert_eq!(gate.check(Role::Worker, &Some("root".to_string())), Err(Forbidden));
    assert_eq!(gate.check(Role::Admin, &None), Err(Forbidden));
    assert_eq!(gate.check(Role::Admin, &Some("".to_string())), Err(Forbidden));
}

#[test]
fn opt_filter_rejects_only_a_differing_filter() {
    assert!(!opt_filter(&"a".to_string(), &None));
    assert!(!opt_filter(&"a".to_string(), &Some("a".to_string())));
    assert!(opt_filter(&"a".to_string(), &Some("b".to_string())));
}

#[test]
fn status_labels() {
    assert_eq!(Status::Good.label(), "GOOD");
    assert_eq!(Status::Bad.label(), "BAD");
    assert_eq!(Status::Unknown.label(), "UNKWN");
}

#[test]
fn list_pkgs_applies_each_filter() {
    let c = coordinator();
    assert_eq!(list_pkgs(&c, &no_filter()).len(), 3);
    let mut f = no_filter();
    f.name = Some("hello".to_string());
    let got = list_pkgs(&c, &f);
    assert_eq!(got.iter().map(|p| p.id).collect::<Vec<_>>(), vec![0, 1]);
    f.architecture = Some("arm64".to_string());
    assert_eq!(list_pkgs(&c, &f).iter().map(|p| p.id).collect::<Vec<_>>(), vec![1]);
    f.status = Some("GOOD".to_string());
    assert_eq!(list_pkgs(&c, &f).len(), 0);
    f.status = Some("UNKWN".to_string());
    assert_eq!(list_pkgs(&c, &f).len(), 1);
    f.suite = Some("contrib".to_string());
    assert_eq!(list_pkgs(&c, &f).len(), 0);
}

#[test]
fn admin_operations_are_forbidden_without_the_admin_secret() {
    let mut c = coordinator();
    let w = worker("w1");
    assert_eq!(push_queue(&mut c, &w, &query("hello", None, None), 1), Err(ApiError::Forbidden));
    assert_eq!(drop_from_queue(&mut c, &w, &query("hello", None, None)), Err(ApiError::Forbidden));
    assert_eq!(requeue_pkg(&mut c, &w, &no_filter(), true, 1), Err(ApiError::Forbidden));
    assert!(matches!(list_workers(&mut c, &w, 1), Err(ApiError::Forbidden)));
    assert_eq!(c.queue.len(), 0);
}

#[test]
fn worker_operations_are_forbidden_without_the_worker_secret() {
    let mut c = coordinator();
    push_queue(&mut c, &admin(), &query("zsh", None, None), 1).unwrap();
    let mut a = admin();
    a.worker_key = Some("w1".to_string());
    a.peer_addr = Some("10.0.0.1".to_string());
    assert!(matches!(pop_queue(&mut c, &a, 2), Err(ApiError::Forbidden)));
    assert_eq!(ping_build(&mut c, &a, 0, 2), Err(ApiError::Forbidden));
    assert_eq!(report_build(&mut c, &a, 0, Verdict::Good, 2), Err(ApiError::Forbidden));
    assert_eq!(list_workers(&mut c, &admin(), 2).unwrap().len(), 0);
    assert_eq!(c.queue.list(1)[0].worker_id, None);
}

#[test]
fn worker_request_needs_key_and_peer() {
    let mut c = coordinator();
    let mut r = worker("w1");
    r.worker_key = None;
    assert!(matches!(pop_queue(&mut c, &r, 2), Err(ApiError::MissingWorkerKey)));
    let mut r = worker("w1");
    r.peer_addr = None;
    assert!(matches!(pop_queue(&mut c, &r, 2), Err(ApiError::UnknownPeer)));
    assert_eq!(list_workers(&mut c, &admin(), 2).unwrap().len(), 0);
}

#[test]
fn push_then_pop_round_trip() {
    let mut c = coordinator();
    push_queue(&mut c, &admin(), &query("hello", Some("arm64"), Some("1.1")), 5).unwrap();
    match pop_queue(&mut c, &worker("w1"), 6).unwrap() {
        JobAssignment::Rebuild(job) => {
            let p = job.package.unwrap();
            assert_eq!(p.name, "hello");
            assert_eq!(p.version, "1.1");
            assert_eq!(p.distro, "debian");
            assert_eq!(p.suite, "main");
            assert_eq!(p.architecture, "arm64");
            assert_eq!(p.url, "https://example.com/hello_1.0_arm64.deb");
            assert_eq!(job.item.version, "1.1");
            assert_eq!(job.item.package_id, 1);
            assert_eq!(job.item.worker_id, Some(0));
            assert_eq!(job.item.last_ping, Some(6));
        }
        JobAssignment::Nothing => panic!("expected a job"),
    }
    assert_eq!(c.catalog.get(1).unwrap().version, "1.0");
}

#[test]
fn push_without_version_uses_the_catalogs() {
    let mut c = coordinator();
    push_queue(&mut c, &admin(), &query("hello", None, None), 5).unwrap();
    let l = c.queue.list(10);
    assert_eq!(l.len(), 2);
    assert_eq!((l[0].package_id, l[0].version.as_str()), (0, "1.0"));
    assert_eq!((l[1].package_id, l[1].version.as_str()), (1, "1.0"));
    push_queue(&mut c, &admin(), &query("hello", None, None), 5).unwrap();
    assert_eq!(c.queue.len(), 4);
    push_queue(&mut c, &admin(), &query("absent", None, None), 5).unwrap();
    assert_eq!(c.queue.len(), 4);
}

#[test]
fn second_worker_gets_nothing_after_single_push() {
    let mut c = coordinator();
    push_queue(&mut c, &admin(), &query("zsh", None, None), 5).unwrap();
    match pop_queue(&mut c, &worker("w1"), 6).unwrap() {
        JobAssignment::Rebuild(job) => {
            let p = job.package.unwrap();
            assert_eq!((p.name.as_str(), p.version.as_str()), ("zsh", "5.8"));
        }
        JobAssignment::Nothing => panic!("expected a job"),
    }
    assert!(matches!(pop_queue(&mut c, &worker("w2"), 6), Ok(JobAssignment::Nothing)));
    let ws = list_workers(&mut c, &admin(), 6).unwrap();
    assert_eq!(ws.len(), 2);
    assert_eq!(ws[0].status.as_deref(), Some("working hard on zsh 5.8"));
    assert_eq!(ws[1].status, None);
}

#[test]
fn expired_lease_goes_to_the_next_worker() {
    let mut c = coordinator();
    push_queue(&mut c, &admin(), &query("zsh", None, None), 0).unwrap();
    assert!(matches!(pop_queue(&mut c, &worker("w1"), 100), Ok(JobAssignment::Rebuild(_))));
    assert!(matches!(pop_queue(&mut c, &worker("w2"), 160), Ok(JobAssignment::Nothing)));
    match pop_queue(&mut c, &worker("w2"), 161).unwrap() {
        JobAssignment::Rebuild(job) => {
            assert_eq!(job.item.id, 0);
            assert_eq!(job.item.worker_id, Some(1));
        }
        JobAssignment::Nothing => panic!("expected the reclaimed job"),
    }
    assert_eq!(ping_build(&mut c, &worker("w1"), 0, 162), Err(ApiError::LeaseMismatch));
    assert_eq!(report_build(&mut c, &worker("w1"), 0, Verdict::Good, 162), Err(ApiError::LeaseMismatch));
    assert_eq!(status_of(&c, 2), Status::Unknown);
}

#[test]
fn report_by_non_holder_is_rejected_and_status_unchanged() {
    let mut c = coordinator();
    push_queue(&mut c, &admin(), &query("zsh", None, None), 0).unwrap();
    pop_queue(&mut c, &worker("w1"), 1).unwrap();
    assert_eq!(report_build(&mut c, &worker("w2"), 0, Verdict::Good, 2), Err(ApiError::LeaseMismatch));
    assert_eq!(status_of(&c, 2), Status::Unknown);
    assert_eq!(c.queue.len(), 1);
    assert_eq!(c.queue.list(1)[0].worker_id, Some(0));
    assert_eq!(c.queue.list(1)[0].last_ping, Some(1));
}

#[test]
fn report_by_holder_sets_status_and_deletes_item() {
    let mut c = coordinator();
    push_queue(&mut c, &admin(), &query("hello", None, None), 0).unwrap();
    pop_queue(&mut c, &worker("w1"), 1).unwrap();
    assert_eq!(report_build(&mut c, &worker("w1"), 0, Verdict::Good, 2), Ok(()));
    assert_eq!(status_of(&c, 0), Status::Good);
    assert_eq!(status_of(&c, 1), Status::Unknown);
    assert_eq!(c.queue.len(), 1);
    pop_queue(&mut c, &worker("w1"), 3).unwrap();
    assert_eq!(report_build(&mut c, &worker("w1"), 1, Verdict::Failed, 4), Ok(()));
    assert_eq!(status_of(&c, 1), Status::Bad);
    assert_eq!(c.queue.len(), 0);
    let ws = list_workers(&mut c, &admin(), 4).unwrap();
    assert_eq!(ws[0].status, None);
    assert_eq!(ws[0].last_ping, 4);
}

#[test]
fn ping_by_holder_keeps_the_lease_alive() {
    let mut c = coordinator();
    push_queue(&mut c, &admin(), &query("zsh", None, None), 0).unwrap();
    pop_queue(&mut c, &worker("w1"), 100).unwrap();
    assert_eq!(ping_build(&mut c, &worker("w1"), 0, 150), Ok(()));
    assert!(matches!(pop_queue(&mut c, &worker("w2"), 200), Ok(JobAssignment::Nothing)));
    assert_eq!(c.queue.list(1)[0].last_ping, Some(150));
}

#[test]
fn drop_removes_items_of_selected_packages() {
    let mut c = coordinator();
    push_queue(&mut c, &admin(), &query("hello", None, None), 0).unwrap();
    push_queue(&mut c, &admin(), &query("zsh", None, None), 1).unwrap();
    pop_queue(&mut c, &worker("w1"), 2).unwrap();
    assert_eq!(drop_from_queue(&mut c, &admin(), &query("hello", None, None)), Ok(()));
    let l = c.queue.list(10);
    assert_eq!(l.len(), 1);
    assert_eq!(l[0].package_id, 2);
}

#[test]
fn requeue_with_reset_clears_status() {
    let mut c = coordinator();
    c.catalog.set_status(0, Status::Good);
    c.catalog.set_status(2, Status::Bad);
    let mut f = no_filter();
    f.name = Some("hello".to_string());
    assert_eq!(requeue_pkg(&mut c, &admin(), &f, false, 7), Ok(()));
    assert_eq!(status_of(&c, 0), Status::Good);
    assert_eq!(c.queue.len(), 2);
    assert_eq!(requeue_pkg(&mut c, &admin(), &f, true, 8), Ok(()));
    assert_eq!(status_of(&c, 0), Status::Unknown);
    assert_eq!(status_of(&c, 2), Status::Bad);
    assert_eq!(c.queue.len(), 4);
    assert_eq!(c.queue.list(10)[3].queued_at, 8);
}

#[test]
fn list_queue_at_reclaims_and_enriches() {
    let mut c = coordinator();
    push_queue(&mut c, &admin(), &query("hello", None, Some("2.0")), 0).unwrap();
    pop_queue(&mut c, &worker("w1"), 10).unwrap();
    let l = list_queue_at(&mut c, 1, 20);
    assert_eq!(l.now, 20);
    assert_eq!(l.queue.len(), 1);
    assert_eq!(l.queue[0].item.worker_id, Some(0));
    assert_eq!(l.queue[0].package.as_ref().unwrap().version, "2.0");
    let l = list_queue_at(&mut c, 10, 71);
    assert_eq!(l.queue.len(), 2);
    assert_eq!(l.queue[0].item.worker_id, None);
    assert_eq!(l.queue[0].item.id, 0);
    assert_eq!(l.queue[1].item.id, 1);
    assert_eq!(l.queue[1].package.as_ref().unwrap().architecture, "arm64");
}

#[test]
fn list_queue_reads_the_clock() {
    let mut c = coordinator();
    push_queue(&mut c, &admin(), &query("zsh", None, None), 0).unwrap();
    pop_queue(&mut c, &worker("w1"), 10).unwrap();
    let l = list_queue(&mut c, 5);
    assert!(l.now > 1_500_000_000);
    assert_eq!(l.queue.len(), 1);
    assert_eq!(l.queue[0].item.worker_id, None);
}

#[test]
fn identify_registers_once_and_bumps_ping() {
    let mut r = WorkerRegistry::new();
    let a = r.identify(&"k1".to_string(), &"1.1.1.1".to_string(), 5).ok().unwrap();
    assert_eq!((a.id, a.last_ping, a.online), (0, 5, true));
    assert_eq!(a.status, None);
    let b = r.identify(&"k2".to_string(), &"2.2.2.2".to_string(), 6).ok().unwrap();
    assert_eq!(b.id, 1);
    let again = r.identify(&"k1".to_string(), &"9.9.9.9".to_string(), 9).ok().unwrap();
    assert_eq!((again.id, again.last_ping), (0, 9));
    assert_eq!(again.addr, "1.1.1.1");
    assert_eq!(r.list(9, 100).len(), 2);
}

#[test]
fn stale_workers_go_offline() {
    let mut r = WorkerRegistry::new();
    r.identify(&"k1".to_string(), &"a".to_string(), 0).ok().unwrap();
    r.identify(&"k2".to_string(), &"b".to_string(), 50).ok().unwrap();
    r.set_status(1, Some("building".to_string()));
    let l = r.list(100, 60);
    assert!(!l[0].online);
    assert!(l[1].online);
    assert_eq!(l[1].status.as_deref(), Some("building"));
    let l = r.list(60, 60);
    assert!(!l[0].online);
    r.set_status(1, None);
    assert_eq!(r.list(60, 60)[1].status, None);
}

fn raw(lines: &[(&str, Option<&str>)]) -> RawRequest {
    RawRequest {
        headers: lines
            .iter()
            .map(|(n, v)| Header { name: n.to_string(), value: v.map(|s| s.to_string()) })
            .collect(),
        peer_addr: Some("10.1.2.3".to_string()),
    }
}

fn release(name: &str, version: &str, url: &str) -> Release {
    Release {
        name: name.to_string(),
        version: version.to_string(),
        distro: "debian".to_string(),
        suite: "main".to_string(),
        architecture: "amd64".to_string(),
        url: url.to_string(),
    }
}

#[test]
fn header_gives_first_value_of_that_name() {
    let r = raw(&[("host", Some("a")), ("x-worker-key", Some("k1")), ("x-worker-key", Some("k2"))]);
    assert_eq!(header(&r, "x-worker-key"), Ok("k1"));
    assert_eq!(header(&r, "host"), Ok("a"));
    assert_eq!(header(&r, "x-auth-cookie"), Err(HeaderError::Missing));
    assert_eq!(header(&raw(&[]), "host"), Err(HeaderError::Missing));
}

#[test]
fn header_that_is_no_text_cannot_be_read() {
    let r = raw(&[("x-worker-key", None), ("x-worker-key", Some("k2"))]);
    assert_eq!(header(&r, "x-worker-key"), Err(HeaderError::Undecodable));
}

#[test]
fn request_is_read_from_headers() {
    let r = raw(&[("x-signup-secret", Some("signup")), ("x-worker-key", Some("k1")), ("x-auth-cookie", None)]);
    let req = Request::read(&r);
    assert_eq!(req.admin_secret, None);
    assert_eq!(req.worker_secret.as_deref(), Some("signup"));
    assert_eq!(req.worker_key.as_deref(), Some("k1"));
    assert_eq!(req.peer_addr.as_deref(), Some("10.1.2.3"));
    let mut c = coordinator();
    assert!(matches!(pop_queue(&mut c, &req, 1), Ok(JobAssignment::Nothing)));
    let req = Request::read(&raw(&[("x-auth-cookie", Some("root"))]));
    assert_eq!(req.admin_secret.as_deref(), Some("root"));
    assert_eq!(req.worker_key, None);
}

#[test]
fn upsert_adds_unknown_release_and_updates_known_one() {
    let mut cat = PackageCatalog::new();
    assert!(cat.upsert(&release("hello", "1.0", "u1")));
    assert!(cat.upsert(&release("hello", "1.1", "u2")));
    cat.set_status(0, Status::Good);
    assert!(cat.upsert(&release("hello", "1.0", "u3")));
    let all = cat.list(&no_filter());
    assert_eq!(all.len(), 2);
    assert_eq!((all[0].id, all[0].url.as_str(), all[0].status), (0, "u3", Status::Good));
    assert_eq!((all[1].id, all[1].url.as_str(), all[1].status), (1, "u2", Status::Unknown));
    assert_eq!(all[1].version, "1.1");
}

#[test]
fn sync_is_for_administrators() {
    let mut c = coordinator();
    let import = vec![release("hello", "1.0", "new"), release("vim", "9.0", "v")];
    assert!(matches!(sync_work(&mut c, &worker("w1"), &import), Err(ApiError::Forbidden)));
    assert_eq!(list_pkgs(&c, &no_filter()).len(), 3);
    assert!(matches!(sync_work(&mut c, &admin(), &import), Ok(JobAssignment::Nothing)));
    let all = list_pkgs(&c, &no_filter());
    assert_eq!(all.len(), 4);
    assert_eq!(all[0].url, "new");
    assert_eq!((all[3].id, all[3].name.as_str()), (3, "vim"));
}

#[test]
fn catalog_get_and_reset() {
    let mut c = coordinator();
    assert!(c.catalog.get(3).is_none());
    c.catalog.set_status(1, Status::Bad);
    c.catalog.set_status(9, Status::Bad);
    assert_eq!(status_of(&c, 1), Status::Bad);
    assert_eq!(status_of(&c, 0), Status::Unknown);
    c.catalog.reset_status(&vec![1, 7]);
    assert_eq!(status_of(&c, 1), Status::Unknown);
}

#[test]
fn worker_lookup_registers_on_first_contact() {
    let mut c = coordinator();
    let w = get_worker_from_request(&mut c, &worker("w1"), 3).ok().unwrap();
    assert_eq!((w.id, w.key.as_str(), w.addr.as_str(), w.last_ping, w.online), (0, "w1", "10.0.0.1", 3, true));
    let w = get_worker_from_request(&mut c, &worker("w1"), 8).ok().unwrap();
    assert_eq!((w.id, w.last_ping), (0, 8));
    let mut nameless = worker("w1");
    nameless.worker_key = None;
    assert!(matches!(get_worker_from_request(&mut c, &nameless, 9), Err(ApiError::MissingWorkerKey)));
    assert_eq!(list_workers(&mut c, &admin(), 9).unwrap().len(), 1);
}

#[test]
fn enrich_takes_package_data_and_queued_version() {
    let c = coordinator();
    let item = |package_id| QueueItem {
        id: 4,
        package_id,
        version: "9.9".to_string(),
        queued_at: 1,
        worker_id: None,
        last_ping: None,
    };
    let job = c.enrich(item(2));
    let p = job.package.unwrap();
    assert_eq!((p.id, p.name.as_str(), p.version.as_str()), (2, "zsh", "9.9"));
    assert_eq!(job.item.id, 4);
    assert!(c.enrich(item(17)).package.is_none());
}

#[test]
fn entries_ids_and_filter_of_a_query() {
    let c = coordinator();
    let pkgs = list_pkgs(&c, &no_filter());
    assert_eq!(package_ids(&pkgs), vec![0, 1, 2]);
    let own = entries(&pkgs, &None);
    assert_eq!(own[2], (2, "5.8".to_string()));
    let pinned = entries(&pkgs, &Some("7".to_string()));
    assert_eq!(pinned, vec![(0, "7".to_string()), (1, "7".to_string()), (2, "7".to_string())]);
    let f = filter_of(&query("hello", Some("arm64"), Some("3")));
    assert_eq!(f.name.as_deref(), Some("hello"));
    assert_eq!(f.status, None);
    assert_eq!(f.distro.as_deref(), Some("debian"));
    assert_eq!(f.suite.as_deref(), Some("main"));
    assert_eq!(f.architecture.as_deref(), Some("arm64"));
    assert!(passes(&pkgs[1], &f));
    assert!(!passes(&pkgs[0], &f));
    assert!(same_release(&pkgs[0], &release("hello", "1.0", "elsewhere")));
    assert!(!same_release(&pkgs[1], &release("hello", "1.0", "elsewhere")));
}
