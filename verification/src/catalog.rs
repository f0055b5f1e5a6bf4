//! The catalog of known package releases and their verification status.

use vstd::prelude::*;

verus! {

/// The outcome of the last verification of a release.
#[derive(Debug, Clone, Copy, PartialEq, Eq, Structural)]
pub enum Status {
    Unknown,
    Good,
    Bad,
}

/// The text that stands for a status where text is exchanged.
pub open spec fn status_label(s: Status) -> Seq<char> {
    match s {
        Status::Unknown => "UNKWN"@,
        Status::Good => "GOOD"@,
        Status::Bad => "BAD"@,
    }
}

impl Status {
    /// The status as text.
    pub fn label(&self) -> (r: String)
        ensures
            r@ == status_label(*self),
    {
        match self {
            Status::Unknown => "UNKWN".to_owned(),
            Status::Good => "GOOD".to_owned(),
            Status::Bad => "BAD".to_owned(),
        }
    }
}

/// One release of a package.
pub struct Package {
    pub id: u64,
    pub name: String,
    pub version: String,
    pub status: Status,
    pub distro: String,
    pub suite: String,
    pub architecture: String,
    /// Where the published artifact can be fetched.
    pub url: String,
}

/// The mathematical value of a [`Package`].
pub struct PackageView {
    pub id: u64,
    pub name: Seq<char>,
    pub version: Seq<char>,
    pub status: Status,
    pub distro: Seq<char>,
    pub suite: Seq<char>,
    pub architecture: Seq<char>,
    pub url: Seq<char>,
}

impl View for Package {
    type V = PackageView;

    open spec fn view(&self) -> PackageView {
        PackageView {
            id: self.id,
            name: self.name@,
            version: self.version@,
            status: self.status,
            distro: self.distro@,
            suite: self.suite@,
            architecture: self.architecture@,
            url: self.url@,
        }
    }
}

impl Package {
    /// A copy with the same value.
    pub fn duplicate(&self) -> (r: Package)
        ensures
            r@ == self@,
    {
        Package {
            id: self.id,
            name: self.name.clone(),
            version: self.version.clone(),
            status: self.status,
            distro: self.distro.clone(),
            suite: self.suite.clone(),
            architecture: self.architecture.clone(),
            url: self.url.clone(),
        }
    }
}

/// A release as the importer names it.
pub struct Release {
    pub name: String,
    pub version: String,
    pub distro: String,
    pub suite: String,
    pub architecture: String,
    pub url: String,
}

/// The mathematical value of a [`Release`].
pub struct ReleaseView {
    pub name: Seq<char>,
    pub version: Seq<char>,
    pub distro: Seq<char>,
    pub suite: Seq<char>,
    pub architecture: Seq<char>,
    pub url: Seq<char>,
}

impl View for Release {
    type V = ReleaseView;

    open spec fn view(&self) -> ReleaseView {
        ReleaseView {
            name: self.name@,
            version: self.version@,
            distro: self.distro@,
            suite: self.suite@,
            architecture: self.architecture@,
            url: self.url@,
        }
    }
}

/// The package is the release `r`: name, version, distro, suite and
/// architecture agree.
pub open spec fn is_release(p: PackageView, r: ReleaseView) -> bool {
    &&& p.name == r.name
    &&& p.version == r.version
    &&& p.distro == r.distro
    &&& p.suite == r.suite
    &&& p.architecture == r.architecture
}

/// `i` is the position of the first package that is the release `r`.
pub open spec fn first_release(s: Seq<PackageView>, r: ReleaseView, i: int) -> bool {
    &&& 0 <= i < s.len()
    &&& is_release(s[i], r)
    &&& forall|j: int| 0 <= j < i ==> !is_release(#[trigger] s[j], r)
}

/// The catalog holds the release `r`.
pub open spec fn knows_release(s: Seq<PackageView>, r: ReleaseView) -> bool {
    exists|i: int| first_release(s, r, i)
}

/// The catalog and its next fresh id after the release `r` has been
/// imported: a known release gets the new artifact location and keeps its
/// status; an unknown one is added with status unknown, unless no id is
/// left.
pub open spec fn upserted(s: Seq<PackageView>, next_id: u64, r: ReleaseView) -> (Seq<PackageView>, u64) {
    if knows_release(s, r) {
        let i = choose|i: int| first_release(s, r, i);
        (s.update(i, PackageView { url: r.url, ..s[i] }), next_id)
    } else if next_id == u64::MAX {
        (s, next_id)
    } else {
        (
            s.push(
                PackageView {
                    id: next_id,
                    name: r.name,
                    version: r.version,
                    status: Status::Unknown,
                    distro: r.distro,
                    suite: r.suite,
                    architecture: r.architecture,
                    url: r.url,
                },
            ),
            (next_id + 1) as u64,
        )
    }
}

/// The catalog and its next fresh id after each of `releases` has been
/// imported in turn.
pub open spec fn imported(s: Seq<PackageView>, next_id: u64, releases: Seq<ReleaseView>) -> (Seq<PackageView>, u64)
    decreases releases.len(),
{
    if releases.len() == 0 {
        (s, next_id)
    } else {
        let before = imported(s, next_id, releases.drop_last());
        upserted(before.0, before.1, releases.last())
    }
}

/// The views of a list of releases.
pub open spec fn release_views(v: Seq<Release>) -> Seq<ReleaseView> {
    Seq::new(v.len(), |i: int| v[i]@)
}

/// Whether `pkg` is the release `r`.
pub fn same_release(pkg: &Package, r: &Release) -> (same: bool)
    ensures
        same == is_release(pkg@, r@),
{
    pkg.name == r.name && pkg.version == r.version && pkg.distro == r.distro && pkg.suite == r.suite
        && pkg.architecture == r.architecture
}

/// A selection of packages: each field that is present must match exactly.
pub struct PkgFilter {
    pub name: Option<String>,
    pub status: Option<String>,
    pub distro: Option<String>,
    pub suite: Option<String>,
    pub architecture: Option<String>,
}

/// The value of an optional text.
pub open spec fn text_view(t: Option<String>) -> Option<Seq<char>> {
    match t {
        Some(s) => Some(s@),
        None => None,
    }
}

/// The mathematical value of a [`PkgFilter`].
pub struct FilterView {
    pub name: Option<Seq<char>>,
    pub status: Option<Seq<char>>,
    pub distro: Option<Seq<char>>,
    pub suite: Option<Seq<char>>,
    pub architecture: Option<Seq<char>>,
}

impl View for PkgFilter {
    type V = FilterView;

    open spec fn view(&self) -> FilterView {
        FilterView {
            name: text_view(self.name),
            status: text_view(self.status),
            distro: text_view(self.distro),
            suite: text_view(self.suite),
            architecture: text_view(self.architecture),
        }
    }
}

/// A present filter rejects every text but its own.
pub open spec fn rejects(this: Seq<char>, filter: Option<Seq<char>>) -> bool {
    filter is Some && filter->0 != this
}

/// Whether `this` is filtered out: `true` exactly when a filter is given
/// and differs from `this`.
pub fn opt_filter(this: &String, filter: &Option<String>) -> (r: bool)
    ensures
        r == rejects(this@, text_view(*filter)),
{
    match filter {
        Some(f) => !(*this == *f),
        None => false,
    }
}

/// The package passes every field of the filter.
pub open spec fn selected(p: PackageView, f: FilterView) -> bool {
    &&& !rejects(p.name, f.name)
    &&& !rejects(status_label(p.status), f.status)
    &&& !rejects(p.distro, f.distro)
    &&& !rejects(p.suite, f.suite)
    &&& !rejects(p.architecture, f.architecture)
}

/// Whether `pkg` passes `filter`.
pub fn passes(pkg: &Package, filter: &PkgFilter) -> (r: bool)
    ensures
        r == selected(pkg@, filter@),
{
    if opt_filter(&pkg.name, &filter.name) {
        return false;
    }
    let label = pkg.status.label();
    if opt_filter(&label, &filter.status) {
        return false;
    }
    if opt_filter(&pkg.distro, &filter.distro) {
        return false;
    }
    if opt_filter(&pkg.suite, &filter.suite) {
        return false;
    }
    if opt_filter(&pkg.architecture, &filter.architecture) {
        return false;
    }
    true
}

/// The views of a sequence of packages, in the same order.
pub open spec fn package_views(v: Seq<Package>) -> Seq<PackageView> {
    Seq::new(v.len(), |i: int| v[i]@)
}

/// The packages that pass the filter, in catalog order.
pub open spec fn matching(s: Seq<PackageView>, f: FilterView) -> Seq<PackageView> {
    s.filter(|p: PackageView| selected(p, f))
}

/// The catalog with the status of package `id` set to `status`.
pub open spec fn with_status(s: Seq<PackageView>, id: u64, status: Status) -> Seq<PackageView> {
    Seq::new(s.len(), |i: int| if s[i].id == id { PackageView { status, ..s[i] } } else { s[i] })
}

/// The catalog with the status of every package named in `ids` cleared.
pub open spec fn with_reset(s: Seq<PackageView>, ids: Seq<u64>) -> Seq<PackageView> {
    Seq::new(
        s.len(),
        |i: int| if ids.contains(s[i].id) { PackageView { status: Status::Unknown, ..s[i] } } else { s[i] },
    )
}

/// Some package of the catalog has this id.
pub open spec fn has_package(s: Seq<PackageView>, id: u64) -> bool {
    exists|i: int| 0 <= i < s.len() && (#[trigger] s[i]).id == id
}

/// The position of package `id`, where there is one.
pub open spec fn package_position(s: Seq<PackageView>, id: u64) -> int {
    choose|i: int| 0 <= i < s.len() && (#[trigger] s[i]).id == id
}

/// No two packages share an id, and every id is below `next_id`.
pub open spec fn valid_catalog(s: Seq<PackageView>, next_id: u64) -> bool {
    &&& forall|i: int, j: int|
        0 <= i < s.len() && 0 <= j < s.len() && i != j ==> (#[trigger] s[i]).id != (#[trigger] s[j]).id
    &&& forall|i: int| 0 <= i < s.len() ==> (#[trigger] s[i]).id < next_id
}

/// The known package releases, in the order in which they were added.
pub struct PackageCatalog {
    pkgs: Vec<Package>,
    next_id: u64,
}

impl View for PackageCatalog {
    type V = Seq<PackageView>;

    closed spec fn view(&self) -> Seq<PackageView> {
        package_views(self.pkgs@)
    }
}

impl PackageCatalog {
    /// The id that the next added release gets.
    pub closed spec fn fresh_id(&self) -> u64 {
        self.next_id
    }

    /// The catalog's invariant.
    pub open spec fn wf(&self) -> bool {
        valid_catalog(self@, self.fresh_id())
    }

    /// An empty catalog.
    pub fn new() -> (c: PackageCatalog)
        ensures
            c.wf(),
            c@ == Seq::<PackageView>::empty(),
            c.fresh_id() == 0,
    {
        let c = PackageCatalog { pkgs: Vec::new(), next_id: 0 };
        assert(c@ =~= Seq::<PackageView>::empty());
        c
    }

    /// Adds a release with status unknown and returns its id; `None`, and
    /// no change, where no id is left.
    pub fn add(
        &mut self,
        name: String,
        version: String,
        distro: String,
        suite: String,
        architecture: String,
        url: String,
    ) -> (r: Option<u64>)
        requires
            old(self).wf(),
        ensures
            final(self).wf(),
            old(self).fresh_id() == u64::MAX ==> r is None && final(self)@ == old(self)@ && final(self).fresh_id()
                == old(self).fresh_id(),
            old(self).fresh_id() < u64::MAX ==> r == Some(old(self).fresh_id()) && final(self).fresh_id() == old(
                self,
            ).fresh_id() + 1 && final(self)@ == old(self)@.push(
                PackageView {
                    id: old(self).fresh_id(),
                    name: name@,
                    version: version@,
                    status: Status::Unknown,
                    distro: distro@,
                    suite: suite@,
                    architecture: architecture@,
                    url: url@,
                },
            ),
    {
        if self.next_id == u64::MAX {
            return None;
        }
        let id: u64 = self.next_id;
        let ghost before = self@;
        let pkg = Package { id, name, version, status: Status::Unknown, distro, suite, architecture, url };
        self.pkgs.push(pkg);
        self.next_id = id + 1;
        proof {
            assert(self@ =~= before.push(pkg@));
        }
        Some(id)
    }

    /// Imports one release: a known release gets the new artifact location,
    /// an unknown one is added. `false`, and no change, where the release
    /// is unknown and no id is left.
    pub fn upsert(&mut self, r: &Release) -> (done: bool)
        requires
            old(self).wf(),
        ensures
            final(self).wf(),
            (final(self)@, final(self).fresh_id()) == upserted(old(self)@, old(self).fresh_id(), r@),
            done == (knows_release(old(self)@, r@) || old(self).fresh_id() < u64::MAX),
    {
        let ghost before = self@;
        let n: usize = self.pkgs.len();
        let mut i: usize = 0;
        while i < n
            invariant
                i <= n,
                n == self.pkgs.len(),
                self@ == before,
                before == old(self)@,
                self.next_id == old(self).next_id,
                self.wf(),
                forall|j: int| 0 <= j < i ==> !is_release(#[trigger] before[j], r@),
            decreases n - i,
        {
            if same_release(&self.pkgs[i], r) {
                let mut known = self.pkgs[i].duplicate();
                known.url = r.url.clone();
                let ghost moved = known@;
                self.pkgs.set(i, known);
                proof {
                    assert(first_release(before, r@, i as int));
                    let c = choose|c: int| first_release(before, r@, c);
                    assert(c == i);
                    assert(self@ =~= before.update(i as int, moved));
                }
                return true;
            }
            i = i + 1;
        }
        proof {
            assert(!knows_release(before, r@));
        }
        self.add(
            r.name.clone(),
            r.version.clone(),
            r.distro.clone(),
            r.suite.clone(),
            r.architecture.clone(),
            r.url.clone(),
        ).is_some()
    }

    /// Imports each of `releases` in turn. A release that is unknown when
    /// no id is left is passed over.
    pub fn import(&mut self, releases: &Vec<Release>)
        requires
            old(self).wf(),
        ensures
            final(self).wf(),
            (final(self)@, final(self).fresh_id()) == imported(
                old(self)@,
                old(self).fresh_id(),
                release_views(releases@),
            ),
    {
        let ghost wanted = release_views(releases@);
        let n: usize = releases.len();
        let mut i: usize = 0;
        while i < n
            invariant
                i <= n,
                n == releases.len(),
                self.wf(),
                wanted == release_views(releases@),
                (self@, self.fresh_id()) == imported(old(self)@, old(self).fresh_id(), wanted.take(i as int)),
            decreases n - i,
        {
            let _ = self.upsert(&releases[i]);
            proof {
                assert(wanted.take(i + 1).drop_last() =~= wanted.take(i as int));
                assert(wanted.take(i + 1).last() == releases[i as int]@);
            }
            i = i + 1;
        }
        proof {
            assert(wanted.take(n as int) =~= wanted);
        }
    }

    /// The packages that pass `filter`, in catalog order.
    pub fn list(&self, filter: &PkgFilter) -> (out: Vec<Package>)
        ensures
            package_views(out@) == matching(self@, filter@),
    {
        let n: usize = self.pkgs.len();
        let mut out: Vec<Package> = Vec::new();
        let mut i: usize = 0;
        while i < n
            invariant
                i <= n,
                n == self.pkgs.len(),
                package_views(out@) == matching(self@.take(i as int), filter@),
            decreases n - i,
        {
            let keep = passes(&self.pkgs[i], filter);
            let ghost prev = package_views(out@);
            if keep {
                out.push(self.pkgs[i].duplicate());
            }
            proof {
                reveal(Seq::filter);
                assert(self@.take(i + 1).drop_last() =~= self@.take(i as int));
                assert(self@.take(i + 1).last() == self@[i as int]);
                if keep {
                    assert(package_views(out@) =~= prev.push(self@[i as int]));
                }
            }
            i = i + 1;
        }
        proof {
            assert(self@.take(n as int) =~= self@);
        }
        out
    }

    /// The package with this id, if the catalog has one.
    pub fn get(&self, id: u64) -> (r: Option<Package>)
        requires
            self.wf(),
        ensures
            r is Some <==> has_package(self@, id),
            r matches Some(p) ==> p@ == self@[package_position(self@, id)] && p@.id == id,
    {
        let n: usize = self.pkgs.len();
        let mut i: usize = 0;
        while i < n
            invariant
                i <= n,
                n == self.pkgs.len(),
                self.wf(),
                forall|j: int| 0 <= j < i ==> (#[trigger] self@[j]).id != id,
            decreases n - i,
        {
            if self.pkgs[i].id == id {
                assert(self@[i as int].id == id);
                return Some(self.pkgs[i].duplicate());
            }
            assert(self@[i as int].id != id);
            i = i + 1;
        }
        None
    }

    /// Records `status` for package `id`; a catalog without that package is
    /// left as it is.
    pub fn set_status(&mut self, id: u64, status: Status)
        requires
            old(self).wf(),
        ensures
            final(self).wf(),
            final(self).fresh_id() == old(self).fresh_id(),
            final(self)@ == with_status(old(self)@, id, status),
    {
        let ghost before = self@;
        let n: usize = self.pkgs.len();
        let mut i: usize = 0;
        while i < n
            invariant
                i <= n,
                n == self.pkgs.len(),
                n == before.len(),
                self.next_id == old(self).next_id,
                forall|j: int| 0 <= j < i ==> (#[trigger] self@[j]) == with_status(before, id, status)[j],
                forall|j: int| i <= j < n ==> (#[trigger] self@[j]) == before[j],
            decreases n - i,
        {
            let ghost mid = self@;
            if self.pkgs[i].id == id {
                let mut fresh = self.pkgs[i].duplicate();
                fresh.status = status;
                self.pkgs.set(i, fresh);
            }
            proof {
                assert(mid[i as int] == before[i as int]);
                assert forall|j: int| 0 <= j < i + 1 implies (#[trigger] self@[j]) == with_status(
                    before,
                    id,
                    status,
                )[j] by {
                    if j < i {
                        assert(self@[j] == mid[j]);
                    }
                }
                assert forall|j: int| i + 1 <= j < n implies (#[trigger] self@[j]) == before[j] by {
                    assert(self@[j] == mid[j]);
                }
            }
            i = i + 1;
        }
        proof {
            assert(self@ =~= with_status(before, id, status));
        }
    }

    /// Clears the status of every package whose id is in `ids`.
    pub fn reset_status(&mut self, ids: &Vec<u64>)
        requires
            old(self).wf(),
        ensures
            final(self).wf(),
            final(self).fresh_id() == old(self).fresh_id(),
            final(self)@ == with_reset(old(self)@, ids@),
    {
        let ghost before = self@;
        let n: usize = self.pkgs.len();
        let mut i: usize = 0;
        while i < n
            invariant
                i <= n,
                n == self.pkgs.len(),
                n == before.len(),
                self.next_id == old(self).next_id,
                forall|j: int| 0 <= j < i ==> (#[trigger] self@[j]) == with_reset(before, ids@)[j],
                forall|j: int| i <= j < n ==> (#[trigger] self@[j]) == before[j],
            decreases n - i,
        {
            let ghost mid = self@;
            if crate::queue::contains_id(ids, self.pkgs[i].id) {
                let mut fresh = self.pkgs[i].duplicate();
                fresh.status = Status::Unknown;
                self.pkgs.set(i, fresh);
            }
            proof {
                assert(mid[i as int] == before[i as int]);
                assert forall|j: int| 0 <= j < i + 1 implies (#[trigger] self@[j]) == with_reset(before, ids@)[j] by {
                    if j < i {
                        assert(self@[j] == mid[j]);
                    }
                }
                assert forall|j: int| i + 1 <= j < n implies (#[trigger] self@[j]) == before[j] by {
                    assert(self@[j] == mid[j]);
                }
            }
            i = i + 1;
        }
        proof {
            assert(self@ =~= with_reset(before, ids@));
        }
    }
}

} // verus!
