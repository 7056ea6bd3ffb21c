//! The shard index: a capacity-bounded, resumable batch of package
//! descriptors with a processed flag per package, plus the derived batch
//! statistics.

use vstd::prelude::*;

use crate::text::{append_ascii, ascii_of, bytes_eq, clone_bytes, extend_bytes, u64_to_dec};

verus! {

/// The mathematical view of one package descriptor.
#[verifier::ext_equal]
pub ghost struct PackageModel {
    pub project_name: Seq<u8>,
    pub project_version: Seq<u8>,
    pub url: Seq<u8>,
    pub upload_time: i64,
    pub processed: bool,
}

/// What the `url` crate finds as the last path segment of a URL: `Some` of
/// the segment's bytes when the text parses as an absolute URL with a
/// non-opaque path, `None` otherwise.
pub uninterp spec fn url_filename_of(url: Seq<u8>) -> Option<Seq<u8>>;

/// Relies on `url::Url::parse` and `Url::path_segments`: the last path
/// segment of the parsed URL, a pure function of the URL text.
#[verifier::external_body]
fn url_last_path_segment(url: &Vec<u8>) -> (r: Option<Vec<u8>>)
    ensures
        r matches Some(v) ==> url_filename_of(url@) == Some(v@),
        r is None ==> url_filename_of(url@) is None,
{
    let text = match core::str::from_utf8(url.as_slice()) {
        Ok(t) => t,
        Err(_) => {
            return None;
        },
    };
    let parsed = match url::Url::parse(text) {
        Ok(u) => u,
        Err(_) => {
            return None;
        },
    };
    let segment = parsed.path_segments().and_then(|s| s.last())?;
    Some(segment.as_bytes().to_vec())
}

/// One package of a shard: its identity, where its archive is retrieved
/// from, when it was uploaded, and whether it has been processed.
pub struct RepositoryPackage {
    pub project_name: Vec<u8>,
    pub project_version: Vec<u8>,
    pub url: Vec<u8>,
    pub upload_time: i64,
    pub processed: bool,
}

impl View for RepositoryPackage {
    type V = PackageModel;

    open spec fn view(&self) -> PackageModel {
        PackageModel {
            project_name: self.project_name@,
            project_version: self.project_version@,
            url: self.url@,
            upload_time: self.upload_time,
            processed: self.processed,
        }
    }
}

impl DeepView for RepositoryPackage {
    type V = PackageModel;

    open spec fn deep_view(&self) -> PackageModel {
        self.view()
    }
}

impl Clone for RepositoryPackage {
    fn clone(&self) -> (r: Self)
        ensures
            r@ == self@,
    {
        let r = RepositoryPackage {
            project_name: clone_bytes(&self.project_name),
            project_version: clone_bytes(&self.project_version),
            url: clone_bytes(&self.url),
            upload_time: self.upload_time,
            processed: self.processed,
        };
        proof {
            assert(r@ =~= self@);
        }
        r
    }
}

/// Two descriptors denote the same package when their project name, version
/// and retrieval URL agree; the upload time and the processed flag carry no
/// identity.
pub open spec fn same_identity(a: PackageModel, b: PackageModel) -> bool {
    a.project_name == b.project_name && a.project_version == b.project_version && a.url == b.url
}

/// Whether some descriptor in `given` denotes the same package as `p`.
pub open spec fn contains_identity(given: Seq<PackageModel>, p: PackageModel) -> bool {
    exists|j: int| 0 <= j < given.len() && same_identity(given[j], p)
}

/// Every descriptor of `ps`, with `processed` set for those that `given`
/// names.
pub open spec fn mark_matched(ps: Seq<PackageModel>, given: Seq<PackageModel>) -> Seq<
    PackageModel,
> {
    Seq::new(
        ps.len(),
        |i: int|
            if contains_identity(given, ps[i]) {
                PackageModel { processed: true, ..ps[i] }
            } else {
                ps[i]
            },
    )
}

/// Marking the same set twice changes nothing after the first time:
/// `mark_matched` is idempotent, because a descriptor's identity does not
/// involve its processed flag.
pub proof fn lemma_mark_matched_idempotent(ps: Seq<PackageModel>, given: Seq<PackageModel>)
    ensures
        mark_matched(mark_matched(ps, given), given) == mark_matched(ps, given),
{
    let once = mark_matched(ps, given);
    let twice = mark_matched(once, given);
    assert forall|i: int| 0 <= i < ps.len() implies twice[i] == once[i] by {
        assert(same_identity(once[i], ps[i]));
        assert(contains_identity(given, once[i]) == contains_identity(given, ps[i]));
    }
    assert(twice =~= once);
}

impl RepositoryPackage {
    /// Whether `self` and `other` denote the same package.
    pub fn matches_identity(&self, other: &Self) -> (r: bool)
        ensures
            r == same_identity(self@, other@),
    {
        bytes_eq(&self.project_name, &other.project_name) && bytes_eq(
            &self.project_version,
            &other.project_version,
        ) && bytes_eq(&self.url, &other.url)
    }

    /// The file name of the package archive: the last path segment of the
    /// retrieval URL, when the URL has one.
    pub fn package_filename(&self) -> (r: Option<Vec<u8>>)
        ensures
            r matches Some(v) ==> url_filename_of(self@.url) == Some(v@),
            r is None ==> url_filename_of(self@.url) is None,
    {
        url_last_path_segment(&self.url)
    }

    /// Sets the processed flag.
    pub fn set_processed(&mut self, value: bool)
        ensures
            final(self)@ == (PackageModel { processed: value, ..old(self)@ }),
    {
        self.processed = value;
        proof {
            assert(self@ =~= PackageModel { processed: value, ..old(self)@ });
        }
    }

    /// The human-readable identifier `name/version/filename`, when the URL
    /// yields a file name.
    pub fn identifier(&self) -> (r: Option<Vec<u8>>)
        ensures
            r matches Some(v) ==> url_filename_of(self@.url) matches Some(f) && v@ == self@
                .project_name + ascii_of("/") + self@.project_version + ascii_of("/") + f,
            r is None ==> url_filename_of(self@.url) is None,
    {
        proof {
            reveal_strlit("/");
        }
        let filename = match self.package_filename() {
            Some(f) => f,
            None => {
                return None;
            },
        };
        let mut out = clone_bytes(&self.project_name);
        append_ascii(&mut out, "/");
        extend_bytes(&mut out, &self.project_version);
        append_ascii(&mut out, "/");
        extend_bytes(&mut out, &filename);
        Some(out)
    }

    /// The destination prefix `packages/name/filename/` under which every
    /// entry of this package's archive lands, when the URL yields a file
    /// name.
    pub fn file_prefix(&self) -> (r: Option<Vec<u8>>)
        ensures
            r matches Some(v) ==> url_filename_of(self@.url) matches Some(f) && v@ == ascii_of(
                "packages/",
            ) + self@.project_name + ascii_of("/") + f + ascii_of("/"),
            r is None ==> url_filename_of(self@.url) is None,
    {
        proof {
            reveal_strlit("packages/");
            reveal_strlit("/");
        }
        let filename = match self.package_filename() {
            Some(f) => f,
            None => {
                return None;
            },
        };
        let mut out: Vec<u8> = Vec::new();
        append_ascii(&mut out, "packages/");
        extend_bytes(&mut out, &self.project_name);
        append_ascii(&mut out, "/");
        extend_bytes(&mut out, &filename);
        append_ascii(&mut out, "/");
        Some(out)
    }

    /// A placeholder descriptor around a bare URL, for debugging runs.
    pub fn fake_from_url(url: Vec<u8>) -> (r: Self)
        ensures
            r@.url == url@,
            r@.project_name == ascii_of("fake"),
            r@.project_version == ascii_of("fake"),
            r@.upload_time == 0,
            !r@.processed,
    {
        proof {
            reveal_strlit("fake");
        }
        RepositoryPackage {
            project_name: crate::text::ascii_bytes("fake"),
            project_version: crate::text::ascii_bytes("fake"),
            url,
            upload_time: 0,
            processed: false,
        }
    }
}

/// Filling a shard past its capacity is an invariant violation, fatal to
/// the run.
#[derive(Copy, Clone, Debug, PartialEq, Eq, Structural)]
pub enum CapacityError {
    Exceeded,
}

/// The derived statistics of one shard.
pub struct RepoStats {
    pub earliest_package: i64,
    pub latest_package: i64,
    pub total_packages: usize,
    pub done_packages: usize,
}

impl RepoStats {
    /// The whole-number percentage of processed packages, rounded down.
    pub fn percent_done(&self) -> (r: usize)
        requires
            self.total_packages > 0,
            self.done_packages <= self.total_packages,
        ensures
            r == self.done_packages * 100 / self.total_packages as int,
            r <= 100,
    {
        let d = self.done_packages as u128;
        let t = self.total_packages as u128;
        proof {
            assert((d as int) * 100 / (t as int) <= 100) by (nonlinear_arith)
                requires
                    d <= t,
                    0 < t,
            ;
        }
        let r = (d * 100 / t) as usize;
        r
    }
}

/// A capacity-bounded shard of packages.  The package list never exceeds
/// `max_capacity`.
pub struct RepositoryIndex {
    index: usize,
    max_capacity: usize,
    packages: Vec<RepositoryPackage>,
}

impl RepositoryIndex {
    /// The shard's number.
    pub closed spec fn spec_index(self) -> int {
        self.index as int
    }

    /// The most packages the shard may hold.
    pub closed spec fn spec_max_capacity(self) -> int {
        self.max_capacity as int
    }

    /// The descriptors the shard holds, in order.
    pub closed spec fn spec_packages(self) -> Seq<PackageModel> {
        self.packages.deep_view()
    }

    /// The shard invariant: the package list is within capacity.
    pub closed spec fn wf(self) -> bool {
        self.packages@.len() <= self.max_capacity
    }

    /// A new shard from the descriptors carved out of the backlog.
    pub fn new(index: usize, max_capacity: usize, packages: Vec<RepositoryPackage>) -> (r: Self)
        requires
            packages@.len() <= max_capacity,
        ensures
            r.wf(),
            r.spec_index() == index,
            r.spec_max_capacity() == max_capacity,
            r.spec_packages() == packages.deep_view(),
    {
        RepositoryIndex { index, max_capacity, packages }
    }

    /// The shard's number.
    pub fn index(&self) -> (r: usize)
        ensures
            r == self.spec_index(),
    {
        self.index
    }

    /// The shard's capacity.
    pub fn max_capacity(&self) -> (r: usize)
        ensures
            r == self.spec_max_capacity(),
    {
        self.max_capacity
    }

    /// The name of the file the shard is persisted to.
    pub fn file_name(&self) -> (r: Vec<u8>)
        ensures
            r@ == crate::text::dec_of(self.spec_index() as nat) + ascii_of(".json"),
    {
        proof {
            reveal_strlit(".json");
        }
        let mut out = u64_to_dec(self.index as u64);
        append_ascii(&mut out, ".json");
        out
    }

    /// The packages of the shard.
    pub fn packages(&self) -> (r: &Vec<RepositoryPackage>)
        ensures
            r.deep_view() == self.spec_packages(),
    {
        &self.packages
    }

    /// Whether any capacity remains.
    pub fn has_capacity(&self) -> (r: bool)
        requires
            self.wf(),
        ensures
            r == (self.spec_max_capacity() - self.spec_packages().len() > 0),
    {
        self.extra_capacity() > 0
    }

    /// How many more packages the shard can take: its capacity minus what
    /// it holds, never negative.
    pub fn extra_capacity(&self) -> (r: usize)
        requires
            self.wf(),
        ensures
            r == self.spec_max_capacity() - self.spec_packages().len(),
    {
        self.max_capacity - self.packages.len()
    }

    /// Appends new descriptors while capacity remains; a batch larger than
    /// the remaining capacity is refused whole, fatally, and the shard is
    /// unchanged.
    pub fn fill_packages(&mut self, new_packages: Vec<RepositoryPackage>) -> (r: Result<
        (),
        CapacityError,
    >)
        requires
            old(self).wf(),
        ensures
            final(self).wf(),
            r is Ok <==> new_packages@.len() <= old(self).spec_max_capacity() - old(
                self,
            ).spec_packages().len(),
            r is Ok ==> final(self).spec_packages() == old(self).spec_packages()
                + new_packages.deep_view(),
            r is Err ==> final(self).spec_packages() == old(self).spec_packages(),
            final(self).spec_index() == old(self).spec_index(),
            final(self).spec_max_capacity() == old(self).spec_max_capacity(),
    {
        let capacity = self.extra_capacity();
        if capacity < new_packages.len() {
            return Err(CapacityError::Exceeded);
        }
        let mut incoming = new_packages;
        self.packages.append(&mut incoming);
        proof {
            assert(self.packages.deep_view() =~= old(self).spec_packages()
                + new_packages.deep_view());
        }
        Ok(())
    }

    /// The descriptors not yet processed, preserving order.
    pub fn unprocessed_packages(&self) -> (r: Vec<RepositoryPackage>)
        ensures
            r.deep_view() == self.spec_packages().filter(|m: PackageModel| !m.processed),
    {
        let mut out: Vec<RepositoryPackage> = Vec::new();
        let mut i: usize = 0;
        while i < self.packages.len()
            invariant
                i <= self.packages@.len(),
                out.deep_view() == self.packages.deep_view().take(i as int).filter(
                    |m: PackageModel| !m.processed,
                ),
            decreases self.packages@.len() - i,
        {
            let ghost pre = self.packages.deep_view().take(i as int);
            proof {
                assert(self.packages.deep_view().take(i + 1).drop_last() =~= pre);
                assert(self.packages.deep_view().take(i + 1).last() == self.packages@[i as int]@);
                reveal_with_fuel(Seq::filter, 2);
            }
            if !self.packages[i].processed {
                let copied = self.packages[i].clone();
                out.push(copied);
            }
            i += 1;
        }
        proof {
            assert(self.packages.deep_view().take(self.packages@.len() as int) =~= self.packages.deep_view());
        }
        out
    }

    /// Sets the processed flag of every descriptor that the given list
    /// names, matching by package identity.  Descriptors already processed
    /// stay processed: repeating the call changes nothing.
    pub fn mark_packages_as_processed(&mut self, packages: Vec<RepositoryPackage>)
        ensures
            final(self).wf() == old(self).wf(),
            final(self).spec_packages() == mark_matched(
                old(self).spec_packages(),
                packages.deep_view(),
            ),
            final(self).spec_index() == old(self).spec_index(),
            final(self).spec_max_capacity() == old(self).spec_max_capacity(),
    {
        let ghost given = packages.deep_view();
        let mut i: usize = 0;
        while i < self.packages.len()
            invariant
                i <= self.packages@.len(),
                self.packages@.len() == old(self).packages@.len(),
                given == packages.deep_view(),
                forall|k: int|
                    i <= k < self.packages@.len() ==> #[trigger] (self.packages.deep_view()[k])
                        == old(self).spec_packages()[k],
                forall|k: int|
                    0 <= k < i ==> #[trigger] (self.packages.deep_view()[k]) == mark_matched(
                        old(self).spec_packages(),
                        given,
                    )[k],
                self.index == old(self).index,
                self.max_capacity == old(self).max_capacity,
            decreases self.packages@.len() - i,
        {
            let ghost prev = self.packages.deep_view();
            let matched = contains_package(&packages, &self.packages[i]);
            if matched {
                let mut updated = self.packages[i].clone();
                updated.set_processed(true);
                proof {
                    assert(updated@ =~= (PackageModel { processed: true, ..prev[i as int] }));
                }
                self.packages[i] = updated;
            }
            proof {
                assert(forall|k: int|
                    0 <= k < self.packages@.len() && k != i ==> #[trigger] (
                    self.packages.deep_view()[k]) == prev[k]);
                assert(self.packages.deep_view()[i as int] == mark_matched(
                    old(self).spec_packages(),
                    given,
                )[i as int]);
            }
            i += 1;
        }
        proof {
            assert(self.packages.deep_view() =~= mark_matched(old(self).spec_packages(), given));
        }
    }

    /// The shard's statistics: the earliest and latest upload time over all
    /// packages, the total count and the processed count.  Meaningless for
    /// an empty shard, which is excluded.
    pub fn stats(&self) -> (r: RepoStats)
        requires
            self.spec_packages().len() > 0,
        ensures
            r.total_packages == self.spec_packages().len(),
            r.done_packages == self.spec_packages().filter(|m: PackageModel| m.processed).len(),
            forall|i: int|
                0 <= i < self.spec_packages().len() ==> r.earliest_package <= #[trigger] (
                self.spec_packages()[i].upload_time) && r.latest_package >= self.spec_packages()[i].upload_time,
            exists|i: int|
                0 <= i < self.spec_packages().len() && #[trigger] (self.spec_packages()[i].upload_time)
                    == r.earliest_package,
            exists|i: int|
                0 <= i < self.spec_packages().len() && #[trigger] (self.spec_packages()[i].upload_time)
                    == r.latest_package,
    {
        let mut earliest: i64 = self.packages[0].upload_time;
        let mut latest: i64 = self.packages[0].upload_time;
        proof {
            assert(self.packages.deep_view()[0].upload_time == earliest);
        }
        let mut done: usize = 0;
        let mut i: usize = 0;
        while i < self.packages.len()
            invariant
                0 < self.packages@.len(),
                i <= self.packages@.len(),
                done == self.packages.deep_view().take(i as int).filter(
                    |m: PackageModel| m.processed,
                ).len(),
                forall|k: int|
                    0 <= k < i ==> earliest <= #[trigger] (self.packages.deep_view()[k].upload_time)
                        && latest >= self.packages.deep_view()[k].upload_time,
                exists|k: int|
                    0 <= k < self.packages@.len() && #[trigger] (
                    self.packages.deep_view()[k].upload_time) == earliest,
                exists|k: int|
                    0 <= k < self.packages@.len() && #[trigger] (
                    self.packages.deep_view()[k].upload_time) == latest,
            decreases self.packages@.len() - i,
        {
            let ghost pre = self.packages.deep_view().take(i as int);
            proof {
                assert(self.packages.deep_view().take(i + 1).drop_last() =~= pre);
                assert(self.packages.deep_view().take(i + 1).last() == self.packages@[i as int]@);
                reveal_with_fuel(Seq::filter, 2);
            }
            let t = self.packages[i].upload_time;
            proof {
                assert(self.packages.deep_view()[i as int].upload_time == t);
            }
            if t < earliest {
                earliest = t;
            }
            if t > latest {
                latest = t;
            }
            if self.packages[i].processed {
                done += 1;
            }
            i += 1;
        }
        proof {
            assert(self.packages.deep_view().take(self.packages@.len() as int) =~= self.packages.deep_view());
        }
        RepoStats { earliest_package: earliest, latest_package: latest, total_packages: self.packages.len(), done_packages: done }
    }
}

/// One byte of a project name after normalization: underscores and dots
/// become dashes, ASCII capitals become lower case.
pub open spec fn normalized_name_byte(b: u8) -> u8 {
    if b == 95 || b == 46 {
        45
    } else if 65 <= b <= 90 {
        (b + 32) as u8
    } else {
        b
    }
}

/// Normalizes a project name the way the published pages and search index
/// do: underscores and dots become dashes and ASCII capitals lower case, so
/// that spelling variants of one project collapse to one key.
pub fn normalize_project_name(name: &Vec<u8>) -> (r: Vec<u8>)
    ensures
        r@ == name@.map_values(|b: u8| normalized_name_byte(b)),
{
    let mut out: Vec<u8> = Vec::new();
    let mut i: usize = 0;
    while i < name.len()
        invariant
            i <= name@.len(),
            out@ == name@.take(i as int).map_values(|b: u8| normalized_name_byte(b)),
        decreases name@.len() - i,
    {
        let b = name[i];
        if b == 95 || b == 46 {
            out.push(45);
        } else if 65 <= b && b <= 90 {
            out.push(b + 32);
        } else {
            out.push(b);
        }
        proof {
            assert(out@ =~= name@.take(i + 1).map_values(|b: u8| normalized_name_byte(b)));
        }
        i += 1;
    }
    proof {
        assert(name@.take(name@.len() as int) =~= name@);
    }
    out
}

/// Whether the destination prefix of a package mentions `f`.  A package
/// whose URL yields no file name has no prefix and never matches.
pub open spec fn prefix_contains(m: PackageModel, f: Seq<u8>) -> bool {
    match url_filename_of(m.url) {
        Some(file) => crate::text::contains_seq(
            ascii_of("packages/") + m.project_name + ascii_of("/") + file + ascii_of("/"),
            f,
        ),
        None => false,
    }
}

/// Narrows a batch to the packages whose destination prefix mentions the
/// filter, keeping order, and then to the first `limit` of them.
pub fn select_packages(
    packages: Vec<RepositoryPackage>,
    filter: Option<Vec<u8>>,
    limit: Option<usize>,
) -> (r: Vec<RepositoryPackage>)
    ensures
        ({
            let mid = match filter {
                Some(f) => packages.deep_view().filter(|m: PackageModel| prefix_contains(m, f@)),
                None => packages.deep_view(),
            };
            r.deep_view() == match limit {
                Some(l) => if l < mid.len() {
                    mid.take(l as int)
                } else {
                    mid
                },
                None => mid,
            }
        }),
{
    let mut mid: Vec<RepositoryPackage>;
    match &filter {
        Some(f) => {
            let ghost fseq = f@;
            let ghost models = packages.deep_view();
            let ghost total = models.len();
            let mut remaining = packages;
            mid = Vec::new();
            proof {
                assert(remaining.deep_view() =~= models.skip(0));
                assert(models.take(0) =~= Seq::<PackageModel>::empty());
                assert(mid.deep_view() =~= models.take(0).filter(
                    |m: PackageModel| prefix_contains(m, fseq),
                ));
            }
            while remaining.len() > 0
                invariant
                    fseq == f@,
                    remaining.deep_view() == models.skip(total - remaining@.len() as int),
                    remaining@.len() <= total == models.len(),
                    mid.deep_view() == models.take(total - remaining@.len() as int).filter(
                        |m: PackageModel| prefix_contains(m, fseq),
                    ),
                decreases remaining@.len(),
            {
                let ghost done = total - remaining@.len() as int;
                let ghost pre_at = remaining@;
                let ghost pre_deep = remaining.deep_view();
                let p = remaining.remove(0);
                proof {
                    assert(p == pre_at[0]);
                    assert(p@ == pre_deep[0]);
                    assert(p@ == models[done]);
                    assert forall|k: int| 0 <= k < remaining@.len() implies remaining.deep_view()[k]
                        == models.skip(done + 1)[k] by {
                        assert(remaining@[k] == pre_at[k + 1]);
                        assert(remaining.deep_view()[k] == pre_deep[k + 1]);
                    }
                    assert(remaining.deep_view() =~= models.skip(done + 1));
                    assert(models.take(done + 1).drop_last() =~= models.take(done));
                    assert(models.take(done + 1).last() == models[done]);
                    reveal_with_fuel(Seq::filter, 2);
                    reveal_strlit("packages/");
                    reveal_strlit("/");
                }
                let prefix_opt = p.file_prefix();
                let keep: bool;
                match prefix_opt {
                    Some(pref) => {
                        keep = crate::text::contains_bytes(&pref, f);
                        proof {
                            assert(url_filename_of(p@.url) is Some);
                            assert(pref@ == ascii_of("packages/") + p@.project_name + ascii_of("/")
                                + url_filename_of(p@.url).unwrap() + ascii_of("/"));
                            assert(keep == prefix_contains(p@, fseq));
                        }
                    },
                    None => {
                        keep = false;
                        proof {
                            assert(url_filename_of(p@.url) is None);
                            assert(keep == prefix_contains(p@, fseq));
                        }
                    },
                }
                proof {
                    assert(keep == prefix_contains(models[done], fseq));
                }
                if keep {
                    mid.push(p);
                }
                proof {
                    assert(mid.deep_view() =~= models.take(done + 1).filter(
                        |m: PackageModel| prefix_contains(m, fseq),
                    ));
                }
            }
            proof {
                assert(models.take(total as int) =~= models);
            }
        },
        None => {
            mid = packages;
        },
    }
    match limit {
        Some(l) => {
            if l < mid.len() {
                let ghost before_at = mid@;
                let ghost before = mid.deep_view();
                mid.truncate(l);
                proof {
                    assert forall|k: int| 0 <= k < mid@.len() implies mid.deep_view()[k]
                        == before.take(l as int)[k] by {
                        assert(mid@[k] == before_at[k]);
                    }
                    assert(mid.deep_view() =~= before.take(l as int));
                }
            }
            mid
        },
        None => mid,
    }
}

/// Whether some descriptor of `list` denotes the same package as `p`.
pub fn contains_package(list: &Vec<RepositoryPackage>, p: &RepositoryPackage) -> (r: bool)
    ensures
        r == contains_identity(list.deep_view(), p@),
{
    let mut j: usize = 0;
    while j < list.len()
        invariant
            j <= list@.len(),
            forall|k: int| 0 <= k < j ==> !same_identity(#[trigger] (list.deep_view()[k]), p@),
        decreases list@.len() - j,
    {
        if list[j].matches_identity(p) {
            assert(same_identity(list.deep_view()[j as int], p@));
            return true;
        }
        j += 1;
    }
    false
}

} // verus!
