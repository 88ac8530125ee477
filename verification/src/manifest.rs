//! The manifest model and the resolution engine: the validated, queryable
//! form of a manifest document, and the operations that resolve component
//! names, install specifications and downloadable artifacts against it.

use crate::date::ToolDate;
use crate::error::Error;
use crate::error::ErrorView;
use crate::hash_value::spec_bytes_lt;
use crate::hash_value::HashValue;
use crate::manifest_v2;
use crate::manifest_v2::RawBuildView;
use crate::manifest_v2::ComponentView;
use crate::manifest_v2::RawPackageView;
use crate::supported_target::SupportedTarget;
use crate::supported_target::spec_supports;
use crate::supported_target::spec_triple_canon;
use crate::supported_target::TargetTriple;
use crate::text::str_eq;
use crate::table::lemma_table_find_none;
use crate::table::lemma_table_find_some;
use crate::table::lemma_table_set_finds;
use crate::table::lemma_table_set_preserves;
use crate::table::spec_table_find;
use crate::table::spec_table_set;
use crate::table::table_find_index;
use crate::table::table_set;
use vstd::prelude::*;

verus! {

/// A caller-supplied install specification: a profile name plus explicitly
/// requested components and extra target platforms. Nothing is validated on
/// construction; validation happens during resolution.
#[derive(Clone, Debug)]
pub struct InstallSpec {
    /// The profile to expand.
    pub profile: String,
    /// Extra component names, each of which must resolve.
    pub components: Vec<String>,
    /// Extra target platforms, each resolved through the standard-library
    /// package for that platform.
    pub targets: Vec<String>,
}

/// View of an install specification.
pub struct InstallSpecView {
    /// The profile to expand.
    pub profile: Seq<char>,
    /// Extra component names.
    pub components: Seq<Seq<char>>,
    /// Extra target platforms.
    pub targets: Seq<Seq<char>>,
}

impl DeepView for InstallSpec {
    type V = InstallSpecView;

    open spec fn deep_view(&self) -> InstallSpecView {
        InstallSpecView {
            profile: self.profile@,
            components: self.components.deep_view(),
            targets: self.targets.deep_view(),
        }
    }
}

/// The digest kinds a manifest can declare for an artifact.
#[derive(Clone, Copy, Debug, Eq, Hash, PartialEq, Structural)]
pub enum Digest {
    /// A SHA-256 digest.
    Sha256,
}

/// The compression kinds an artifact can be offered under.
#[derive(Clone, Copy, Debug, Eq, Hash, PartialEq, Structural)]
pub enum Compression {
    /// No compression.
    Uncompressed,
    /// A gzip-compressed tarball.
    Gzip,
    /// An xz-compressed tarball.
    Xz,
}

impl DeepView for Digest {
    type V = Digest;

    open spec fn deep_view(&self) -> Digest {
        *self
    }
}

impl DeepView for Compression {
    type V = Compression;

    open spec fn deep_view(&self) -> Compression {
        *self
    }
}

/// View of a downloadable binary.
pub struct RemoteBinaryView {
    /// Where the binary can be fetched.
    pub url: Seq<char>,
    /// The digests declared for it, by digest kind.
    pub digests: Seq<(Digest, Seq<u8>)>,
}

/// A downloadable binary: a location plus its declared digests.
#[derive(Debug)]
pub struct RemoteBinary {
    /// Where the binary can be fetched.
    pub url: String,
    /// The digests declared for it, by digest kind.
    pub digests: Vec<(Digest, HashValue)>,
}

impl DeepView for RemoteBinary {
    type V = RemoteBinaryView;

    open spec fn deep_view(&self) -> RemoteBinaryView {
        RemoteBinaryView { url: self.url@, digests: self.digests.deep_view() }
    }
}

impl Clone for RemoteBinary {
    fn clone(&self) -> (r: Self)
        ensures
            r.deep_view() == self.deep_view(),
    {
        let mut digests: Vec<(Digest, HashValue)> = Vec::new();
        let n = self.digests.len();
        for i in 0..n
            invariant
                n == self.digests@.len(),
                digests.deep_view() =~~= self.digests.deep_view().take(i as int),
        {
            let d = self.digests[i].0;
            let h = self.digests[i].1.clone();
            digests.push((d, h));
            proof {
                assert(digests.deep_view() =~~= self.digests.deep_view().take(i as int + 1));
            }
        }
        proof {
            assert(self.digests.deep_view().take(n as int) =~~= self.digests.deep_view());
        }
        let r = RemoteBinary { url: self.url.clone(), digests };
        r
    }
}

/// View of one resolved per-target build.
pub struct BuildView {
    /// The artifacts of the build, by compression kind.
    pub artifacts: Seq<(Compression, RemoteBinaryView)>,
}

/// One resolved per-target build: its artifacts by compression kind.
#[derive(Debug)]
struct PackageBuild {
    /// The artifacts of the build, by compression kind.
    artifacts: Vec<(Compression, RemoteBinary)>,
}

impl DeepView for PackageBuild {
    type V = BuildView;

    closed spec fn deep_view(&self) -> BuildView {
        BuildView { artifacts: self.artifacts.deep_view() }
    }
}

/// Copies an artifact list, preserving its view.
fn clone_artifacts(src: &Vec<(Compression, RemoteBinary)>) -> (r: Vec<(Compression, RemoteBinary)>)
    ensures
        r.deep_view() == src.deep_view(),
{
    let mut out: Vec<(Compression, RemoteBinary)> = Vec::new();
    let n = src.len();
    for i in 0..n
        invariant
            n == src@.len(),
            out.deep_view() =~~= src.deep_view().take(i as int),
    {
        let c = src[i].0;
        let b = src[i].1.clone();
        out.push((c, b));
        proof {
            assert(out.deep_view() =~~= src.deep_view().take(i as int + 1));
        }
    }
    proof {
        assert(src.deep_view().take(n as int) =~~= src.deep_view());
    }
    out
}

impl Clone for PackageBuild {
    fn clone(&self) -> (r: Self)
        ensures
            r.deep_view() == self.deep_view(),
    {
        PackageBuild { artifacts: clone_artifacts(&self.artifacts) }
    }
}

/// View of package version metadata.
pub struct PackageInfoView {
    /// The version text.
    pub version: Seq<char>,
    /// The source commit digest.
    pub git_commit: Seq<u8>,
}

/// Package version metadata: a version and the source commit it was built
/// from.
#[derive(Debug)]
struct PackageInfo {
    version: String,
    git_commit: HashValue,
}

impl DeepView for PackageInfo {
    type V = PackageInfoView;

    closed spec fn deep_view(&self) -> PackageInfoView {
        PackageInfoView { version: self.version@, git_commit: self.git_commit@ }
    }
}

/// View of a package's build table.
pub enum TargetMapView {
    /// One build valid for every target, or no build at all.
    Independent(Option<BuildView>),
    /// A table of builds keyed by specific target.
    Dependent(Seq<(Seq<char>, Option<BuildView>)>),
}

/// A package's build table: either a single target-independent build or a
/// per-specific-target table. An entry holding `None` records a target that
/// was declared but is unavailable, as opposed to one never declared.
#[derive(Debug)]
enum TargetMap {
    Independent(Option<PackageBuild>),
    Dependent(Vec<(String, Option<PackageBuild>)>),
}

impl DeepView for TargetMap {
    type V = TargetMapView;

    closed spec fn deep_view(&self) -> TargetMapView {
        match self {
            TargetMap::Independent(b) => TargetMapView::Independent(b.deep_view()),
            TargetMap::Dependent(m) => TargetMapView::Dependent(m.deep_view()),
        }
    }
}

/// View of a package record in the model.
pub struct PackageBuildsView {
    /// The package name.
    pub name: Seq<char>,
    /// Version metadata, when the package carries any.
    pub info: Option<PackageInfoView>,
    /// The build table.
    pub artifacts: TargetMapView,
}

/// A package record in the model: its name, optional version metadata, and
/// its build table.
#[derive(Debug)]
struct PackageBuilds {
    name: String,
    info: Option<PackageInfo>,
    artifacts: TargetMap,
}

impl DeepView for PackageBuilds {
    type V = PackageBuildsView;

    closed spec fn deep_view(&self) -> PackageBuildsView {
        PackageBuildsView {
            name: self.name@,
            info: self.info.deep_view(),
            artifacts: self.artifacts.deep_view(),
        }
    }
}

/// What fetching a package's build for a target yields: the build, or the
/// error telling why there is none. A target-independent package serves any
/// descriptor; a target-dependent one serves only its declared specific
/// targets, and a declared-but-unavailable target is distinguished from an
/// undeclared one.
pub open spec fn spec_get_build(pb: PackageBuildsView, st: Option<Seq<char>>) -> Result<
    BuildView,
    ErrorView,
> {
    match pb.artifacts {
        TargetMapView::Independent(b) => match b {
            Some(b) => Ok(b),
            None => Err(ErrorView::PackageUnavailable(pb.name, st)),
        },
        TargetMapView::Dependent(m) => match st {
            None => Err(ErrorView::PackageNotTargetIndependent(pb.name)),
            Some(t) => match spec_table_find(m, t) {
                None => Err(ErrorView::PackageUnknown(pb.name, st)),
                Some(b) => match b {
                    Some(b) => Ok(b),
                    None => Err(ErrorView::PackageUnavailable(pb.name, st)),
                },
            },
        },
    }
}

impl PackageBuilds {
    /// Fetches this package's build for a target, as `spec_get_build` says.
    fn get(&self, supported_target: &SupportedTarget) -> (r: Result<PackageBuild, Error>)
        ensures
            ({
                match spec_get_build(self.deep_view(), supported_target.deep_view()) {
                    Ok(b) => r matches Ok(rb) && rb.deep_view() == b,
                    Err(e) => r matches Err(re) && re.deep_view() == e,
                }
            }),
    {
        match &self.artifacts {
            TargetMap::Independent(build) => {
                if let Some(build) = build {
                    Ok(build.clone())
                } else {
                    Err(
                        Error::PackageUnavailable(
                            self.name.clone(),
                            supported_target.clone(),
                        ),
                    )
                }
            },
            TargetMap::Dependent(map) => {
                let target = if let SupportedTarget::Dependent(target) = supported_target {
                    target
                } else {
                    return Err(Error::PackageNotTargetIndependent(self.name.clone()));
                };
                match table_find_index(map, target.as_str()) {
                    Some(i) => {
                        proof {
                            lemma_table_find_some(map.deep_view(), target@, i as int);
                        }
                        if let Some(build) = &map[i].1 {
                            Ok(build.clone())
                        } else {
                            Err(
                                Error::PackageUnavailable(
                                    self.name.clone(),
                                    supported_target.clone(),
                                ),
                            )
                        }
                    },
                    None => {
                        proof {
                            lemma_table_find_none(map.deep_view(), target@);
                        }
                        Err(
                            Error::PackageUnknown(
                                self.name.clone(),
                                supported_target.clone(),
                            ),
                        )
                    },
                }
            },
        }
    }
}

/// View of a resolved download descriptor.
pub struct ManifestPackageView {
    /// The package name.
    pub name: Seq<char>,
    /// The package version.
    pub version: Seq<char>,
    /// The source commit the package was built from.
    pub git_commit: Seq<u8>,
    /// The target the build was resolved for.
    pub supported_target: Option<Seq<char>>,
    /// The artifacts of the build, by compression kind.
    pub tarballs: Seq<(Compression, RemoteBinaryView)>,
}

/// A resolved download descriptor: one package build chosen for one target,
/// with everything needed to fetch and verify it.
#[derive(Debug)]
pub struct ManifestPackage {
    /// The package name.
    pub name: String,
    /// The package version.
    pub version: String,
    /// The source commit the package was built from.
    pub git_commit: HashValue,
    /// The target the build was resolved for.
    pub supported_target: SupportedTarget,
    /// The artifacts of the build, by compression kind.
    pub tarballs: Vec<(Compression, RemoteBinary)>,
}

impl DeepView for ManifestPackage {
    type V = ManifestPackageView;

    open spec fn deep_view(&self) -> ManifestPackageView {
        ManifestPackageView {
            name: self.name@,
            version: self.version@,
            git_commit: self.git_commit@,
            supported_target: self.supported_target.deep_view(),
            tarballs: self.tarballs.deep_view(),
        }
    }
}

/// Every digest an artifact list declares, in declaration order.
pub open spec fn spec_all_digests(tarballs: Seq<(Compression, RemoteBinaryView)>) -> Seq<Seq<u8>>
    decreases tarballs.len(),
{
    if tarballs.len() == 0 {
        Seq::empty()
    } else {
        tarballs[0].1.digests.map_values(|d: (Digest, Seq<u8>)| d.1) + spec_all_digests(
            tarballs.skip(1),
        )
    }
}

/// Strict byte-wise lexicographic order is total: distinct byte sequences
/// compare one way or the other.
pub proof fn lemma_bytes_lt_total(a: Seq<u8>, b: Seq<u8>)
    requires
        a != b,
    ensures
        spec_bytes_lt(a, b) || spec_bytes_lt(b, a),
    decreases a.len(),
{
    if a.len() == 0 || b.len() == 0 {
        if a.len() == 0 && b.len() == 0 {
            assert(a =~= b);
        }
    } else if a[0] == b[0] {
        if a.skip(1) == b.skip(1) {
            assert(a.skip(1).len() == a.len() - 1);
            assert(b.skip(1).len() == b.len() - 1);
            assert(a.len() == b.len());
            assert forall|i: int| 0 <= i < a.len() implies a[i] == b[i] by {
                if i > 0 {
                    assert(a.skip(1)[i - 1] == a[i]);
                    assert(b.skip(1)[i - 1] == b[i]);
                }
            }
            assert(a =~= b);
        } else {
            lemma_bytes_lt_total(a.skip(1), b.skip(1));
        }
    }
}

/// The identity surrogate is deterministic: any two digests that are each
/// largest among the same collection of digests are the same digest,
/// whatever order the collections list them in.
pub proof fn lemma_largest_digest_unique(
    ds1: Seq<Seq<u8>>,
    ds2: Seq<Seq<u8>>,
    a: Seq<u8>,
    b: Seq<u8>,
)
    requires
        ds1.contains(a),
        ds2.contains(b),
        forall|i: int| 0 <= i < ds1.len() ==> !spec_bytes_lt(a, ds1[i]),
        forall|i: int| 0 <= i < ds2.len() ==> !spec_bytes_lt(b, ds2[i]),
        forall|x: Seq<u8>| ds1.contains(x) <==> ds2.contains(x),
    ensures
        a == b,
{
    if a != b {
        lemma_bytes_lt_total(a, b);
        let ia = choose|i: int| 0 <= i < ds1.len() && ds1[i] == a;
        let ib = choose|i: int| 0 <= i < ds2.len() && ds2[i] == b;
        if spec_bytes_lt(a, b) {
            assert(ds2.contains(b));
            assert(ds1.contains(b));
            let j = choose|j: int| 0 <= j < ds1.len() && ds1[j] == b;
            assert(!spec_bytes_lt(a, ds1[j]));
        } else {
            assert(ds1.contains(a));
            assert(ds2.contains(a));
            let j = choose|j: int| 0 <= j < ds2.len() && ds2[j] == a;
            assert(!spec_bytes_lt(b, ds2[j]));
        }
    }
}

impl ManifestPackage {
    /// The package's identity surrogate: the largest of its declared
    /// digests in byte-wise lexicographic order, a deterministic choice
    /// independent of declaration order.
    pub fn unique_identifier(&self) -> (r: HashValue)
        requires
            spec_all_digests(self.deep_view().tarballs).len() > 0,
        ensures
            spec_all_digests(self.deep_view().tarballs).contains(r@),
            forall|i: int|
                0 <= i < spec_all_digests(self.deep_view().tarballs).len() ==> !spec_bytes_lt(
                    r@,
                    spec_all_digests(self.deep_view().tarballs)[i],
                ),
    {
        let ghost all = spec_all_digests(self.deep_view().tarballs);
        let mut hashes: Vec<HashValue> = Vec::new();
        let n = self.tarballs.len();
        proof {
            assert(self.deep_view().tarballs.skip(0) =~= self.deep_view().tarballs);
            assert(hashes.deep_view() + all =~= all);
        }
        for i in 0..n
            invariant
                n == self.tarballs@.len(),
                self.deep_view().tarballs.len() == n,
                all == spec_all_digests(self.deep_view().tarballs),
                all == hashes.deep_view() + spec_all_digests(self.deep_view().tarballs.skip(i as int)),
        {
            let ghost rest = self.deep_view().tarballs.skip(i as int);
            proof {
                assert(rest[0] == self.deep_view().tarballs[i as int]);
                assert(rest.skip(1) =~= self.deep_view().tarballs.skip(i as int + 1));
            }
            let m = self.tarballs[i].1.digests.len();
            let ghost dv = self.deep_view().tarballs[i as int].1.digests.map_values(
                |d: (Digest, Seq<u8>)| d.1,
            );
            proof {
                assert(dv.skip(0) =~= dv);
                assert((hashes.deep_view() + dv.skip(0)) + spec_all_digests(
                    self.deep_view().tarballs.skip(i as int + 1),
                ) =~= hashes.deep_view() + spec_all_digests(rest));
            }
            for j in 0..m
                invariant
                    n == self.tarballs@.len(),
                    i < n,
                    m == self.tarballs@[i as int].1.digests@.len(),
                    self.deep_view().tarballs.len() == n,
                    all == spec_all_digests(self.deep_view().tarballs),
                    dv == self.deep_view().tarballs[i as int].1.digests.map_values(
                        |d: (Digest, Seq<u8>)| d.1,
                    ),
                    dv.len() == m,
                    all == (hashes.deep_view() + dv.skip(j as int)) + spec_all_digests(
                        self.deep_view().tarballs.skip(i as int + 1),
                    ),
            {
                let h = self.tarballs[i].1.digests[j].1.clone();
                let ghost prev = hashes.deep_view();
                hashes.push(h);
                proof {
                    assert(dv[j as int] == h@);
                    assert(dv.skip(j as int).skip(1) =~= dv.skip(j as int + 1));
                    assert(hashes.deep_view() =~= prev.push(h@));
                    assert((hashes.deep_view() + dv.skip(j as int + 1))
                        =~= (prev + dv.skip(j as int)));
                }
            }
            proof {
                assert(dv.skip(m as int) =~= Seq::<Seq<u8>>::empty());
                assert(hashes.deep_view() + dv.skip(m as int) =~= hashes.deep_view());
            }
        }
        proof {
            assert(self.deep_view().tarballs.skip(n as int)
                =~= Seq::<(Compression, RemoteBinaryView)>::empty());
            assert(hashes.deep_view() + spec_all_digests(
                Seq::<(Compression, RemoteBinaryView)>::empty(),
            ) =~= hashes.deep_view());
            assert(hashes.deep_view() == all);
        }
        let k = hashes.len();
        proof {
            assert(all.len() == k);
        }
        let mut best = hashes[0].clone();
        let mut idx: usize = 1;
        proof {
            assert(all[0] == best@);
            assert(all.contains(best@));
            lemma_bytes_lt_irrefl(best@);
        }
        while idx < k
            invariant
                k == hashes@.len(),
                hashes.deep_view() == all,
                1 <= idx <= k,
                all.contains(best@),
                forall|t: int| 0 <= t < idx ==> !spec_bytes_lt(best@, all[t]),
            decreases k - idx,
        {
            let candidate = &hashes[idx];
            proof {
                assert(all[idx as int] == candidate@);
            }
            if best.less_than(candidate) {
                proof {
                    let ob = best@;
                    assert forall|t: int| 0 <= t < idx + 1 implies !spec_bytes_lt(
                        candidate@,
                        all[t],
                    ) by {
                        if t == idx {
                            lemma_bytes_lt_irrefl(candidate@);
                        } else if spec_bytes_lt(candidate@, all[t]) {
                            lemma_bytes_lt_trans(ob, candidate@, all[t]);
                        }
                    }
                    assert(all.contains(candidate@));
                }
                best = candidate.clone();
            } else {
                proof {
                    lemma_bytes_lt_irrefl(best@);
                }
            }
            idx = idx + 1;
        }
        best
    }
}

/// The artifact entries a raw build record yields: none at all when the
/// record is unavailable, else one entry per compression kind whose url and
/// digest are both declared, gzip first.
pub open spec fn spec_translate_build(b: RawBuildView) -> Option<BuildView> {
    if b.available {
        let gz: Seq<(Compression, RemoteBinaryView)> = match (b.gz_url, b.gz_hash) {
            (Some(u), Some(h)) => seq![
                (
                    Compression::Gzip,
                    RemoteBinaryView { url: u, digests: seq![(Digest::Sha256, h)] },
                ),
            ],
            _ => Seq::empty(),
        };
        let xz: Seq<(Compression, RemoteBinaryView)> = match (b.xz_url, b.xz_hash) {
            (Some(u), Some(h)) => seq![
                (
                    Compression::Xz,
                    RemoteBinaryView { url: u, digests: seq![(Digest::Sha256, h)] },
                ),
            ],
            _ => Seq::empty(),
        };
        Some(BuildView { artifacts: gz + xz })
    } else {
        None
    }
}

/// Builds one downloadable-binary entry.
fn make_remote(url: &String, hash: &HashValue) -> (r: RemoteBinary)
    ensures
        r.deep_view() == (RemoteBinaryView { url: url@, digests: seq![(Digest::Sha256, hash@)] }),
{
    let mut digests: Vec<(Digest, HashValue)> = Vec::new();
    digests.push((Digest::Sha256, hash.clone()));
    proof {
        assert(digests.deep_view() =~~= seq![(Digest::Sha256, hash@)]);
    }
    RemoteBinary { url: url.clone(), digests }
}

/// Translates a raw build record, as `spec_translate_build` says.
fn translate_build(from: &manifest_v2::PackageBuild) -> (r: Option<PackageBuild>)
    ensures
        ({
            match spec_translate_build(from.deep_view()) {
                Some(b) => r matches Some(rb) && rb.deep_view() == b,
                None => r is None,
            }
        }),
{
    if from.available {
        let mut artifacts: Vec<(Compression, RemoteBinary)> = Vec::new();
        if let Some(url) = &from.gz_url {
            if let Some(hash) = &from.gz_hash {
                artifacts.push((Compression::Gzip, make_remote(url, hash)));
            }
        }
        if let Some(url) = &from.xz_url {
            if let Some(hash) = &from.xz_hash {
                artifacts.push((Compression::Xz, make_remote(url, hash)));
            }
        }
        let b = PackageBuild { artifacts };
        proof {
            let sb = spec_translate_build(from.deep_view());
            assert(sb matches Some(v) && b.deep_view().artifacts =~~= v.artifacts);
        }
        Some(b)
    } else {
        None
    }
}

/// The per-specific-target build table of a package whose targets are not
/// the lone universal sentinel. Finding the sentinel among them is the
/// conflict the construction rejects; every other key must parse as a
/// triple and is stored under its canonical text.
pub open spec fn spec_dependent_targets(
    name: Seq<char>,
    targets: Seq<(Seq<char>, RawBuildView)>,
) -> Result<Seq<(Seq<char>, Option<BuildView>)>, ErrorView>
    decreases targets.len(),
{
    if targets.len() == 0 {
        Ok(Seq::empty())
    } else if targets[0].0 == "*"@ {
        Err(ErrorView::ConflictingTargetDependence(name))
    } else {
        match crate::supported_target::spec_triple_canon(targets[0].0) {
            None => Err(ErrorView::TargetParse(targets[0].0)),
            Some(t) => match spec_dependent_targets(name, targets.skip(1)) {
                Err(e) => Err(e),
                Ok(rest) => Ok(seq![(t, spec_translate_build(targets[0].1))] + rest),
            },
        }
    }
}

/// A package's build table: target-independent when the target map is
/// exactly the universal sentinel, else per-specific-target.
pub open spec fn spec_package_targets(
    name: Seq<char>,
    targets: Seq<(Seq<char>, RawBuildView)>,
) -> Result<TargetMapView, ErrorView> {
    if targets.len() == 1 && targets[0].0 == "*"@ {
        Ok(TargetMapView::Independent(spec_translate_build(targets[0].1)))
    } else {
        match spec_dependent_targets(name, targets) {
            Ok(m) => Ok(TargetMapView::Dependent(m)),
            Err(e) => Err(e),
        }
    }
}

/// A package's version metadata: present only when both the version and
/// the source commit are declared.
pub open spec fn spec_package_info(p: RawPackageView) -> Option<PackageInfoView> {
    match (p.version, p.git_commit_hash) {
        (Some(v), Some(c)) => Some(PackageInfoView { version: v, git_commit: c }),
        _ => None,
    }
}

/// Builds a package's build table, as `spec_package_targets` says.
fn build_targets(name: &String, targets: &Vec<(String, manifest_v2::PackageBuild)>) -> (r: Result<
    TargetMap,
    Error,
>)
    ensures
        ({
            match spec_package_targets(name@, targets.deep_view()) {
                Ok(tm) => r matches Ok(t) && t.deep_view() == tm,
                Err(e) => r matches Err(er) && er.deep_view() == e,
            }
        }),
{
    let ghost tv = targets.deep_view();
    if targets.len() == 1 && str_eq(targets[0].0.as_str(), "*") {
        proof {
            assert(tv[0].0 == targets@[0].0@);
        }
        Ok(TargetMap::Independent(translate_build(&targets[0].1)))
    } else {
        let mut out: Vec<(String, Option<PackageBuild>)> = Vec::new();
        let n = targets.len();
        proof {
            assert(tv.skip(0) =~= tv);
            assert(out.deep_view() + spec_dependent_targets(name@, tv)->Ok_0
                =~= spec_dependent_targets(name@, tv)->Ok_0);
        }
        for i in 0..n
            invariant
                n == targets@.len(),
                tv == targets.deep_view(),
                tv.len() == n,
                !(tv.len() == 1 && tv[0].0 == "*"@),
                spec_dependent_targets(name@, tv) == (match spec_dependent_targets(
                    name@,
                    tv.skip(i as int),
                ) {
                    Err(e) => Err::<Seq<(Seq<char>, Option<BuildView>)>, ErrorView>(e),
                    Ok(rest) => Ok::<Seq<(Seq<char>, Option<BuildView>)>, ErrorView>(
                        out.deep_view() + rest,
                    ),
                }),
        {
            let ghost rest = tv.skip(i as int);
            proof {
                assert(rest[0] == tv[i as int]);
                assert(rest.skip(1) =~= tv.skip(i as int + 1));
            }
            let key = &targets[i].0;
            if str_eq(key.as_str(), "*") {
                return Err(Error::ConflictingTargetDependence(name.clone()));
            }
            match TargetTriple::parse(key.as_str()) {
                None => {
                    return Err(Error::TargetParse(key.clone()));
                },
                Some(t) => {
                    let ghost prev = out.deep_view();
                    let canon = t.as_str().to_owned();
                    out.push((canon, translate_build(&targets[i].1)));
                    proof {
                        assert(out.deep_view() =~~= prev.push(
                            (t@, spec_translate_build(tv[i as int].1)),
                        ));
                        assert((prev + (seq![(t@, spec_translate_build(tv[i as int].1))]
                            + spec_dependent_targets(name@, tv.skip(i as int + 1))->Ok_0)) =~= (
                        out.deep_view() + spec_dependent_targets(
                            name@,
                            tv.skip(i as int + 1),
                        )->Ok_0));
                    }
                },
            }
        }
        proof {
            assert(tv.skip(n as int) =~= Seq::<(Seq<char>, RawBuildView)>::empty());
            assert(out.deep_view() + Seq::<(Seq<char>, Option<BuildView>)>::empty()
                =~= out.deep_view());
        }
        Ok(TargetMap::Dependent(out))
    }
}

/// Builds one model package record from a raw one, as the construction
/// specs say.
fn build_package(name: &String, p: &manifest_v2::Package) -> (r: Result<PackageBuilds, Error>)
    ensures
        ({
            match spec_package_targets(name@, p.deep_view().targets) {
                Ok(tm) => r matches Ok(pb) && pb.deep_view() == (PackageBuildsView {
                    name: name@,
                    info: spec_package_info(p.deep_view()),
                    artifacts: tm,
                }),
                Err(e) => r matches Err(er) && er.deep_view() == e,
            }
        }),
{
    let artifacts = match build_targets(name, &p.targets) {
        Ok(tm) => tm,
        Err(e) => {
            return Err(e);
        },
    };
    let info = match (&p.version, &p.git_commit_hash) {
        (Some(version), Some(git_commit)) => Some(
            PackageInfo { version: version.clone(), git_commit: git_commit.clone() },
        ),
        _ => None,
    };
    Ok(PackageBuilds { name: name.clone(), info, artifacts })
}

/// The (package, target-descriptor) pairs a component list yields, in
/// declaration order. Every descriptor string must parse: the universal
/// sentinel or a recognizable triple.
pub open spec fn spec_collect_comps(comps: Seq<ComponentView>) -> Result<
    Seq<(Seq<char>, Option<Seq<char>>)>,
    ErrorView,
>
    decreases comps.len(),
{
    if comps.len() == 0 {
        Ok(Seq::empty())
    } else {
        match SupportedTarget::spec_parse(comps[0].target) {
            None => Err(ErrorView::TargetParse(comps[0].target)),
            Some(st) => match spec_collect_comps(comps.skip(1)) {
                Err(e) => Err(e),
                Ok(rest) => Ok(seq![(comps[0].package, st)] + rest),
            },
        }
    }
}

/// The component pairs one host declares: its core components first, then
/// its extensions.
pub open spec fn spec_host_components(b: RawBuildView) -> Result<
    Seq<(Seq<char>, Option<Seq<char>>)>,
    ErrorView,
> {
    let cs = match b.components {
        Some(c) => c,
        None => Seq::empty(),
    };
    let es = match b.extensions {
        Some(e) => e,
        None => Seq::empty(),
    };
    spec_collect_comps(cs + es)
}

/// The per-host component declarations of the anchor package: each host
/// key must parse as a triple (after that host's own component list has
/// been checked, mirroring the construction order).
pub open spec fn spec_hosts_components(targets: Seq<(Seq<char>, RawBuildView)>) -> Result<
    Seq<(Seq<char>, Seq<(Seq<char>, Option<Seq<char>>)>)>,
    ErrorView,
>
    decreases targets.len(),
{
    if targets.len() == 0 {
        Ok(Seq::empty())
    } else {
        match spec_host_components(targets[0].1) {
            Err(e) => Err(e),
            Ok(comps) => match spec_triple_canon(targets[0].0) {
                None => Err(ErrorView::TargetParse(targets[0].0)),
                Some(host) => match spec_hosts_components(targets.skip(1)) {
                    Err(e) => Err(e),
                    Ok(rest) => Ok(seq![(host, comps)] + rest),
                },
            },
        }
    }
}

/// The rename table inverted: new name to old name.
pub open spec fn spec_inverse_renames(renames: Seq<(Seq<char>, Seq<char>)>) -> Seq<
    (Seq<char>, Seq<char>),
> {
    renames.map_values(|r: (Seq<char>, Seq<char>)| (r.1, r.0))
}

/// Registers one alias of a component in a host's name table: under the
/// suffixed name when the descriptor is target-specific, and under the
/// bare alias when the descriptor covers the host. Later registrations
/// overwrite earlier ones.
pub open spec fn spec_register(
    m: Seq<(Seq<char>, (Seq<char>, Option<Seq<char>>))>,
    host: Seq<char>,
    canon: Seq<char>,
    st: Option<Seq<char>>,
    alias: Seq<char>,
) -> Seq<(Seq<char>, (Seq<char>, Option<Seq<char>>))> {
    let m1 = match st {
        Some(t) => spec_table_set(m, alias + "-"@ + t, (canon, st)),
        None => m,
    };
    if spec_supports(st, host) {
        spec_table_set(m1, alias, (canon, st))
    } else {
        m1
    }
}

/// Registers a component under its canonical name and, when the rename
/// table knows one, under its pre-rename alias, identically.
pub open spec fn spec_register_comp(
    m: Seq<(Seq<char>, (Seq<char>, Option<Seq<char>>))>,
    host: Seq<char>,
    canon: Seq<char>,
    st: Option<Seq<char>>,
    inv: Seq<(Seq<char>, Seq<char>)>,
) -> Seq<(Seq<char>, (Seq<char>, Option<Seq<char>>))> {
    let m1 = spec_register(m, host, canon, st, canon);
    match spec_table_find(inv, canon) {
        Some(unrenamed) => spec_register(m1, host, canon, st, unrenamed),
        None => m1,
    }
}

/// One host's full name table, built by registering its components in
/// declaration order onto `m`.
pub open spec fn spec_name_table(
    m: Seq<(Seq<char>, (Seq<char>, Option<Seq<char>>))>,
    host: Seq<char>,
    comps: Seq<(Seq<char>, Option<Seq<char>>)>,
    inv: Seq<(Seq<char>, Seq<char>)>,
) -> Seq<(Seq<char>, (Seq<char>, Option<Seq<char>>))>
    decreases comps.len(),
{
    if comps.len() == 0 {
        m
    } else {
        spec_name_table(
            spec_register_comp(m, host, comps[0].0, comps[0].1, inv),
            host,
            comps.skip(1),
            inv,
        )
    }
}

/// The component name maps of every host, in declaration order.
pub open spec fn spec_name_maps(
    hosts: Seq<(Seq<char>, Seq<(Seq<char>, Option<Seq<char>>)>)>,
    inv: Seq<(Seq<char>, Seq<char>)>,
) -> Seq<(Seq<char>, Seq<(Seq<char>, (Seq<char>, Option<Seq<char>>))>)>
    decreases hosts.len(),
{
    if hosts.len() == 0 {
        Seq::empty()
    } else {
        seq![(hosts[0].0, spec_name_table(Seq::empty(), hosts[0].0, hosts[0].1, inv))]
            + spec_name_maps(hosts.skip(1), inv)
    }
}

/// Gathers one host's component pairs, as `spec_host_components` says.
fn collect_components(build: &manifest_v2::PackageBuild) -> (r: Result<
    Vec<(String, SupportedTarget)>,
    Error,
>)
    ensures
        ({
            match spec_host_components(build.deep_view()) {
                Ok(cs) => r matches Ok(v) && v.deep_view() == cs,
                Err(e) => r matches Err(er) && er.deep_view() == e,
            }
        }),
{
    let ghost csv: Seq<ComponentView> = match build.deep_view().components {
        Some(c) => c,
        None => Seq::empty(),
    };
    let ghost esv: Seq<ComponentView> = match build.deep_view().extensions {
        Some(e) => e,
        None => Seq::empty(),
    };
    let ghost all = csv + esv;
    let mut out: Vec<(String, SupportedTarget)> = Vec::new();
    proof {
        assert(all.skip(0) =~= all);
        assert(out.deep_view() + spec_collect_comps(all)->Ok_0 =~= spec_collect_comps(all)->Ok_0);
    }
    if let Some(cs) = &build.components {
        let n = cs.len();
        for i in 0..n
            invariant
                n == cs@.len(),
                build.deep_view().components == Some(cs.deep_view()),
                csv == cs.deep_view(),
                esv == (match build.deep_view().extensions {
                    Some(e) => e,
                    None => Seq::empty(),
                }),
                all == csv + esv,
                spec_collect_comps(all) == (match spec_collect_comps(all.skip(i as int)) {
                    Err(e) => Err::<Seq<(Seq<char>, Option<Seq<char>>)>, ErrorView>(e),
                    Ok(rest) => Ok::<Seq<(Seq<char>, Option<Seq<char>>)>, ErrorView>(
                        out.deep_view() + rest,
                    ),
                }),
        {
            let ghost rest = all.skip(i as int);
            proof {
                assert(all[i as int] == csv[i as int]);
                assert(rest[0] == all[i as int]);
                assert(rest.skip(1) =~= all.skip(i as int + 1));
            }
            let c = &cs[i];
            match SupportedTarget::parse(c.target.as_str()) {
                None => {
                    return Err(Error::TargetParse(c.target.clone()));
                },
                Some(st) => {
                    let ghost prev = out.deep_view();
                    out.push((c.package.clone(), st));
                    proof {
                        assert(out.deep_view() =~~= prev.push((c.package@, st.deep_view())));
                        assert((prev + (seq![(csv[i as int].package, st.deep_view())]
                            + spec_collect_comps(all.skip(i as int + 1))->Ok_0)) =~= (
                        out.deep_view() + spec_collect_comps(all.skip(i as int + 1))->Ok_0));
                    }
                },
            }
        }
    }
    proof {
        if build.deep_view().components is None {
            assert(csv =~= Seq::<ComponentView>::empty());
            assert(all.skip(csv.len() as int) =~= all.skip(0));
        }
    }
    if let Some(es) = &build.extensions {
        let m = es.len();
        let ghost base = csv.len() as int;
        for j in 0..m
            invariant
                m == es@.len(),
                build.deep_view().extensions == Some(es.deep_view()),
                esv == es.deep_view(),
                csv == (match build.deep_view().components {
                    Some(c) => c,
                    None => Seq::empty(),
                }),
                base == csv.len(),
                all == csv + esv,
                spec_collect_comps(all) == (match spec_collect_comps(all.skip(base + j as int)) {
                    Err(e) => Err::<Seq<(Seq<char>, Option<Seq<char>>)>, ErrorView>(e),
                    Ok(rest) => Ok::<Seq<(Seq<char>, Option<Seq<char>>)>, ErrorView>(
                        out.deep_view() + rest,
                    ),
                }),
        {
            let ghost idx = base + j as int;
            let ghost rest = all.skip(idx);
            proof {
                assert(all[idx] == esv[j as int]);
                assert(rest[0] == all[idx]);
                assert(rest.skip(1) =~= all.skip(idx + 1));
            }
            let c = &es[j];
            match SupportedTarget::parse(c.target.as_str()) {
                None => {
                    return Err(Error::TargetParse(c.target.clone()));
                },
                Some(st) => {
                    let ghost prev = out.deep_view();
                    out.push((c.package.clone(), st));
                    proof {
                        assert(out.deep_view() =~~= prev.push((c.package@, st.deep_view())));
                        assert((prev + (seq![(esv[j as int].package, st.deep_view())]
                            + spec_collect_comps(all.skip(idx + 1))->Ok_0)) =~= (out.deep_view()
                            + spec_collect_comps(all.skip(idx + 1))->Ok_0));
                    }
                },
            }
        }
    }
    proof {
        if build.deep_view().extensions is None {
            assert(esv =~= Seq::<ComponentView>::empty());
        }
        assert(all.skip(csv.len() + esv.len() as int) =~= Seq::<ComponentView>::empty());
        assert(out.deep_view() + Seq::<(Seq<char>, Option<Seq<char>>)>::empty()
            =~= out.deep_view());
    }
    Ok(out)
}

/// Gathers the per-host component declarations, as `spec_hosts_components`
/// says.
fn collect_hosts(targets: &Vec<(String, manifest_v2::PackageBuild)>) -> (r: Result<
    Vec<(TargetTriple, Vec<(String, SupportedTarget)>)>,
    Error,
>)
    ensures
        ({
            match spec_hosts_components(targets.deep_view()) {
                Ok(hs) => r matches Ok(v) && v.deep_view() == hs,
                Err(e) => r matches Err(er) && er.deep_view() == e,
            }
        }),
{
    let ghost tv = targets.deep_view();
    let mut out: Vec<(TargetTriple, Vec<(String, SupportedTarget)>)> = Vec::new();
    let n = targets.len();
    proof {
        assert(tv.skip(0) =~= tv);
        assert(out.deep_view() + spec_hosts_components(tv)->Ok_0
            =~= spec_hosts_components(tv)->Ok_0);
    }
    for i in 0..n
        invariant
            n == targets@.len(),
            tv == targets.deep_view(),
            tv.len() == n,
            spec_hosts_components(tv) == (match spec_hosts_components(tv.skip(i as int)) {
                Err(e) => Err::<Seq<(Seq<char>, Seq<(Seq<char>, Option<Seq<char>>)>)>, ErrorView>(
                    e,
                ),
                Ok(rest) => Ok::<Seq<(Seq<char>, Seq<(Seq<char>, Option<Seq<char>>)>)>, ErrorView>(
                    out.deep_view() + rest,
                ),
            }),
    {
        let ghost rest = tv.skip(i as int);
        proof {
            assert(rest[0] == tv[i as int]);
            assert(rest.skip(1) =~= tv.skip(i as int + 1));
        }
        let comps = match collect_components(&targets[i].1) {
            Ok(c) => c,
            Err(e) => {
                return Err(e);
            },
        };
        let host = match TargetTriple::parse(targets[i].0.as_str()) {
            Some(h) => h,
            None => {
                return Err(Error::TargetParse(targets[i].0.clone()));
            },
        };
        let ghost prev = out.deep_view();
        let ghost hostv = host@;
        let ghost compsv = comps.deep_view();
        out.push((host, comps));
        proof {
            assert(out.deep_view() =~~= prev.push((hostv, compsv)));
            assert((prev + (seq![(hostv, compsv)] + spec_hosts_components(
                tv.skip(i as int + 1),
            )->Ok_0)) =~= (out.deep_view() + spec_hosts_components(tv.skip(i as int + 1))->Ok_0));
        }
    }
    proof {
        assert(tv.skip(n as int) =~= Seq::<(Seq<char>, RawBuildView)>::empty());
        assert(out.deep_view() + Seq::<(Seq<char>, Seq<(Seq<char>, Option<Seq<char>>)>)>::empty()
            =~= out.deep_view());
    }
    Ok(out)
}

/// Inverts the rename table, as `spec_inverse_renames` says.
fn inverse_renames(renames: &Vec<(String, manifest_v2::Rename)>) -> (r: Vec<(String, String)>)
    ensures
        r.deep_view() == spec_inverse_renames(renames.deep_view()),
{
    let mut out: Vec<(String, String)> = Vec::new();
    let n = renames.len();
    for i in 0..n
        invariant
            n == renames@.len(),
            out.deep_view() =~~= spec_inverse_renames(renames.deep_view()).take(i as int),
    {
        out.push((renames[i].1.to.clone(), renames[i].0.clone()));
        proof {
            assert(out.deep_view() =~~= spec_inverse_renames(renames.deep_view()).take(
                i as int + 1,
            ));
        }
    }
    proof {
        assert(spec_inverse_renames(renames.deep_view()).take(n as int) =~~= spec_inverse_renames(
            renames.deep_view(),
        ));
    }
    out
}

/// Registers one alias of a component, as `spec_register` says.
fn register_alias(
    map: &mut Vec<(String, (String, SupportedTarget))>,
    host: &TargetTriple,
    canon: &String,
    st: &SupportedTarget,
    alias: &String,
)
    ensures
        final(map).deep_view() == spec_register(
            old(map).deep_view(),
            host@,
            canon@,
            st.deep_view(),
            alias@,
        ),
{
    if let SupportedTarget::Dependent(t) = st {
        let mut k = alias.clone();
        k.append(crate::text::hyphen_str());
        k.append(t.as_str());
        proof {
            reveal_strlit("-");
            assert("-"@ =~= seq!['-']);
            assert(k@ =~= alias@ + "-"@ + t@);
        }
        table_set(map, k, (canon.clone(), st.clone()));
    }
    if st.supports(host) {
        table_set(map, alias.clone(), (canon.clone(), st.clone()));
    }
}

/// Registers a component under its canonical name and its pre-rename
/// alias, as `spec_register_comp` says.
fn register_comp(
    map: &mut Vec<(String, (String, SupportedTarget))>,
    host: &TargetTriple,
    canon: &String,
    st: &SupportedTarget,
    inv: &Vec<(String, String)>,
)
    ensures
        final(map).deep_view() == spec_register_comp(
            old(map).deep_view(),
            host@,
            canon@,
            st.deep_view(),
            inv.deep_view(),
        ),
{
    register_alias(map, host, canon, st, canon);
    match table_find_index(inv, canon.as_str()) {
        Some(i) => {
            proof {
                lemma_table_find_some(inv.deep_view(), canon@, i as int);
            }
            let unrenamed = inv[i].1.clone();
            register_alias(map, host, canon, st, &unrenamed);
        },
        None => {
            proof {
                lemma_table_find_none(inv.deep_view(), canon@);
            }
        },
    }
}

/// Derives the component name map of every host, as `spec_name_maps` says.
fn build_component_name_map(
    components: &Vec<(TargetTriple, Vec<(String, SupportedTarget)>)>,
    renames: &Vec<(String, String)>,
) -> (r: Vec<(String, Vec<(String, (String, SupportedTarget))>)>)
    ensures
        r.deep_view() == spec_name_maps(components.deep_view(), renames.deep_view()),
{
    let ghost hv = components.deep_view();
    let ghost inv = renames.deep_view();
    let mut out: Vec<(String, Vec<(String, (String, SupportedTarget))>)> = Vec::new();
    let n = components.len();
    proof {
        assert(hv.skip(0) =~= hv);
        assert(out.deep_view() + spec_name_maps(hv, inv) =~= spec_name_maps(hv, inv));
    }
    for i in 0..n
        invariant
            n == components@.len(),
            hv == components.deep_view(),
            inv == renames.deep_view(),
            hv.len() == n,
            spec_name_maps(hv, inv) == out.deep_view() + spec_name_maps(hv.skip(i as int), inv),
    {
        let ghost rest = hv.skip(i as int);
        proof {
            assert(rest[0] == hv[i as int]);
            assert(rest.skip(1) =~= hv.skip(i as int + 1));
        }
        let host = &components[i].0;
        let comps = &components[i].1;
        let ghost cv = comps.deep_view();
        let mut table: Vec<(String, (String, SupportedTarget))> = Vec::new();
        let m = comps.len();
        proof {
            assert(cv.skip(0) =~= cv);
        }
        for j in 0..m
            invariant
                m == comps@.len(),
                cv == comps.deep_view(),
                cv.len() == m,
                hv == components.deep_view(),
                inv == renames.deep_view(),
                i < components@.len(),
                host == &components@[i as int].0,
                comps == &components@[i as int].1,
                spec_name_table(Seq::empty(), host@, cv, inv) == spec_name_table(
                    table.deep_view(),
                    host@,
                    cv.skip(j as int),
                    inv,
                ),
        {
            let ghost crest = cv.skip(j as int);
            proof {
                assert(crest[0] == cv[j as int]);
                assert(crest.skip(1) =~= cv.skip(j as int + 1));
            }
            let canon = &comps[j].0;
            let st = &comps[j].1;
            register_comp(&mut table, host, canon, st, renames);
        }
        proof {
            assert(cv.skip(m as int) =~= Seq::<(Seq<char>, Option<Seq<char>>)>::empty());
        }
        let key = host.as_str().to_owned();
        let ghost prev = out.deep_view();
        out.push((key, table));
        proof {
            assert(out.deep_view() =~~= prev.push(
                (hv[i as int].0, spec_name_table(Seq::empty(), hv[i as int].0, hv[i as int].1, inv)),
            ));
            assert((prev + (seq![
                (
                    hv[i as int].0,
                    spec_name_table(Seq::empty(), hv[i as int].0, hv[i as int].1, inv),
                ),
            ] + spec_name_maps(hv.skip(i as int + 1), inv))) =~= (out.deep_view()
                + spec_name_maps(hv.skip(i as int + 1), inv)));
        }
    }
    proof {
        assert(hv.skip(n as int) =~= Seq::<(Seq<char>, Seq<(Seq<char>, Option<Seq<char>>)>)>::empty());
        assert(out.deep_view() + Seq::<
            (Seq<char>, Seq<(Seq<char>, (Seq<char>, Option<Seq<char>>))>),
        >::empty() =~= out.deep_view());
    }
    out
}

/// The model's package table, built package by package in document order.
/// The first package whose build table is malformed decides the error.
pub open spec fn spec_build_packages(packages: Seq<(Seq<char>, RawPackageView)>) -> Result<
    Seq<(Seq<char>, PackageBuildsView)>,
    ErrorView,
>
    decreases packages.len(),
{
    if packages.len() == 0 {
        Ok(Seq::empty())
    } else {
        match spec_package_targets(packages[0].0, packages[0].1.targets) {
            Err(e) => Err(e),
            Ok(tm) => match spec_build_packages(packages.skip(1)) {
                Err(e) => Err(e),
                Ok(rest) => Ok(
                    seq![
                        (
                            packages[0].0,
                            PackageBuildsView {
                                name: packages[0].0,
                                info: spec_package_info(packages[0].1),
                                artifacts: tm,
                            },
                        ),
                    ] + rest,
                ),
            },
        }
    }
}

/// View of the manifest model.
pub struct ManifestView {
    /// The manifest format version text.
    pub version: Seq<char>,
    /// The release date as (year, month, day).
    pub date: (int, int, int),
    /// Profile name to component-name list.
    pub profiles: Seq<(Seq<char>, Seq<Seq<char>>)>,
    /// Package name to package record.
    pub packages: Seq<(Seq<char>, PackageBuildsView)>,
    /// Host triple to component name table.
    pub component_name_map: Seq<(Seq<char>, Seq<(Seq<char>, (Seq<char>, Option<Seq<char>>))>)>,
}

/// The manifest model: the validated, queryable form of a manifest
/// document. Built once by `from_v2` and immutable afterwards.
#[derive(Debug)]
pub struct Manifest {
    version: String,
    date: ToolDate,
    profiles: Vec<(String, Vec<String>)>,
    packages: Vec<(String, PackageBuilds)>,
    component_name_map: Vec<(String, Vec<(String, (String, SupportedTarget))>)>,
}

impl DeepView for Manifest {
    type V = ManifestView;

    closed spec fn deep_view(&self) -> ManifestView {
        ManifestView {
            version: self.version@,
            date: (self.date.year as int, self.date.month as int, self.date.day as int),
            profiles: self.profiles.deep_view(),
            packages: self.packages.deep_view(),
            component_name_map: self.component_name_map.deep_view(),
        }
    }
}

/// What translating a raw document yields: the manifest model, or the
/// first of these errors — an unreadable release date, a malformed package
/// build table, a missing anchor package, or a malformed component
/// declaration under the anchor package.
pub open spec fn spec_from_v2(raw: crate::manifest_v2::RawManifestView) -> Result<
    ManifestView,
    ErrorView,
> {
    match crate::date::spec_date_parse(raw.date) {
        None => Err(ErrorView::IncorrectManifestStructure("date"@)),
        Some(d) => match spec_build_packages(raw.packages) {
            Err(e) => Err(e),
            Ok(packages) => match spec_table_find(raw.packages, "rust"@) {
                None => Err(ErrorView::RustMissing),
                Some(rust) => match spec_hosts_components(rust.targets) {
                    Err(e) => Err(e),
                    Ok(hosts) => Ok(
                        ManifestView {
                            version: raw.manifest_version,
                            date: d,
                            profiles: raw.profiles,
                            packages,
                            component_name_map: spec_name_maps(
                                hosts,
                                spec_inverse_renames(raw.renames),
                            ),
                        },
                    ),
                },
            },
        },
    }
}

impl Manifest {
    /// Translates a validated raw document into the manifest model, as
    /// `spec_from_v2` says.
    pub fn from_v2(parsed: manifest_v2::Manifest) -> (r: Result<Manifest, Error>)
        ensures
            ({
                match spec_from_v2(parsed.deep_view()) {
                    Ok(m) => r matches Ok(mm) && mm.deep_view() == m,
                    Err(e) => r matches Err(er) && er.deep_view() == e,
                }
            }),
    {
        let date = match crate::date::parse_date(parsed.date.as_str()) {
            Some(d) => d,
            None => {
                return Err(Error::IncorrectManifestStructure("date".to_owned()));
            },
        };
        let ghost pv = parsed.deep_view().packages;
        let mut packages: Vec<(String, PackageBuilds)> = Vec::new();
        let n = parsed.packages.len();
        proof {
            assert(pv.skip(0) =~= pv);
            assert(packages.deep_view() + spec_build_packages(pv)->Ok_0
                =~= spec_build_packages(pv)->Ok_0);
        }
        for i in 0..n
            invariant
                n == parsed.packages@.len(),
                pv == parsed.packages.deep_view(),
                pv.len() == n,
                crate::date::spec_date_parse(parsed.deep_view().date) is Some,
                spec_build_packages(pv) == (match spec_build_packages(pv.skip(i as int)) {
                    Err(e) => Err::<Seq<(Seq<char>, PackageBuildsView)>, ErrorView>(e),
                    Ok(rest) => Ok::<Seq<(Seq<char>, PackageBuildsView)>, ErrorView>(
                        packages.deep_view() + rest,
                    ),
                }),
        {
            let ghost rest = pv.skip(i as int);
            proof {
                assert(rest[0] == pv[i as int]);
                assert(rest.skip(1) =~= pv.skip(i as int + 1));
            }
            let name = &parsed.packages[i].0;
            let p = &parsed.packages[i].1;
            let pb = match build_package(name, p) {
                Ok(pb) => pb,
                Err(e) => {
                    return Err(e);
                },
            };
            let ghost prev = packages.deep_view();
            let ghost pbv = pb.deep_view();
            packages.push((name.clone(), pb));
            proof {
                assert(packages.deep_view() =~~= prev.push((name@, pbv)));
                assert((prev + (seq![(pv[i as int].0, pbv)] + spec_build_packages(
                    pv.skip(i as int + 1),
                )->Ok_0)) =~= (packages.deep_view() + spec_build_packages(
                    pv.skip(i as int + 1),
                )->Ok_0));
            }
        }
        proof {
            assert(pv.skip(n as int) =~= Seq::<(Seq<char>, RawPackageView)>::empty());
            assert(packages.deep_view() + Seq::<(Seq<char>, PackageBuildsView)>::empty()
                =~= packages.deep_view());
        }
        let rust_idx = match table_find_index(&parsed.packages, "rust") {
            Some(i) => {
                proof {
                    lemma_table_find_some(pv, "rust"@, i as int);
                }
                i
            },
            None => {
                proof {
                    lemma_table_find_none(pv, "rust"@);
                }
                return Err(Error::RustMissing);
            },
        };
        let hosts = match collect_hosts(&parsed.packages[rust_idx].1.targets) {
            Ok(h) => h,
            Err(e) => {
                return Err(e);
            },
        };
        let inv = inverse_renames(&parsed.renames);
        let component_name_map = build_component_name_map(&hosts, &inv);
        let m = Manifest {
            version: parsed.manifest_version,
            date,
            profiles: parsed.profiles,
            packages,
            component_name_map,
        };
        Ok(m)
    }
}

/// What resolving a component name against a host yields: the canonical
/// (package, target-descriptor) pair, `UnknownTarget` when the host was
/// never declared under the anchor package, or `PackageUnknown` when the
/// host's name table does not know the name.
pub open spec fn spec_resolve(m: ManifestView, host: Seq<char>, component: Seq<char>) -> Result<
    (Seq<char>, Option<Seq<char>>),
    ErrorView,
> {
    match spec_table_find(m.component_name_map, host) {
        None => Err(ErrorView::UnknownTarget(host)),
        Some(table) => match spec_table_find(table, component) {
            None => Err(ErrorView::PackageUnknown(component, Some(host))),
            Some(p) => Ok(p),
        },
    }
}

/// Inserts a resolved pair into a result set unless it is already there.
pub open spec fn spec_insert_result(
    s: Seq<(Seq<char>, Option<Seq<char>>)>,
    p: (Seq<char>, Option<Seq<char>>),
) -> Seq<(Seq<char>, Option<Seq<char>>)> {
    if s.contains(p) {
        s
    } else {
        s.push(p)
    }
}

/// Expands a profile's component list onto `acc`. A `PackageUnknown`
/// failure is tolerated and the component skipped — profiles legitimately
/// list components absent on some hosts; any other error propagates.
pub open spec fn spec_profile_packages(
    m: ManifestView,
    host: Seq<char>,
    comps: Seq<Seq<char>>,
    acc: Seq<(Seq<char>, Option<Seq<char>>)>,
) -> Result<Seq<(Seq<char>, Option<Seq<char>>)>, ErrorView>
    decreases comps.len(),
{
    if comps.len() == 0 {
        Ok(acc)
    } else {
        match spec_resolve(m, host, comps[0]) {
            Ok(p) => spec_profile_packages(m, host, comps.skip(1), spec_insert_result(acc, p)),
            Err(e) => if e is PackageUnknown {
                spec_profile_packages(m, host, comps.skip(1), acc)
            } else {
                Err(e)
            },
        }
    }
}

/// Resolves explicitly requested components onto `acc`; every failure
/// propagates, since these names are user input.
pub open spec fn spec_request_packages(
    m: ManifestView,
    host: Seq<char>,
    comps: Seq<Seq<char>>,
    acc: Seq<(Seq<char>, Option<Seq<char>>)>,
) -> Result<Seq<(Seq<char>, Option<Seq<char>>)>, ErrorView>
    decreases comps.len(),
{
    if comps.len() == 0 {
        Ok(acc)
    } else {
        match spec_resolve(m, host, comps[0]) {
            Ok(p) => spec_request_packages(m, host, comps.skip(1), spec_insert_result(acc, p)),
            Err(e) => Err(e),
        }
    }
}

/// Resolves explicitly requested extra targets onto `acc`: each target
/// must parse as a triple and its standard-library component must resolve;
/// every failure propagates.
pub open spec fn spec_target_packages(
    m: ManifestView,
    host: Seq<char>,
    targets: Seq<Seq<char>>,
    acc: Seq<(Seq<char>, Option<Seq<char>>)>,
) -> Result<Seq<(Seq<char>, Option<Seq<char>>)>, ErrorView>
    decreases targets.len(),
{
    if targets.len() == 0 {
        Ok(acc)
    } else {
        match spec_triple_canon(targets[0]) {
            None => Err(ErrorView::TargetParse(targets[0])),
            Some(t) => match spec_resolve(m, host, "rust-std-"@ + t) {
                Ok(p) => spec_target_packages(
                    m,
                    host,
                    targets.skip(1),
                    spec_insert_result(acc, p),
                ),
                Err(e) => Err(e),
            },
        }
    }
}

/// What expanding an install specification yields: the union of the
/// profile's components (tolerantly), the explicitly requested components
/// (strictly) and the standard-library components of the extra targets
/// (strictly), in resolution order without duplicates; or the first error.
pub open spec fn spec_find_packages(
    m: ManifestView,
    host: Seq<char>,
    spec: InstallSpecView,
) -> Result<Seq<(Seq<char>, Option<Seq<char>>)>, ErrorView> {
    match spec_table_find(m.profiles, spec.profile) {
        None => Err(ErrorView::UnknownProfile(spec.profile)),
        Some(profile_comps) => match spec_profile_packages(m, host, profile_comps, Seq::empty()) {
            Err(e) => Err(e),
            Ok(acc1) => match spec_request_packages(m, host, spec.components, acc1) {
                Err(e) => Err(e),
                Ok(acc2) => spec_target_packages(m, host, spec.targets, acc2),
            },
        },
    }
}

/// What expanding a package set into download descriptors yields: one
/// descriptor per resolved pair in order, or the first error — an absent
/// package-table entry, a build-table failure, or missing version
/// metadata.
pub open spec fn spec_downloads(
    m: ManifestView,
    packages: Seq<(Seq<char>, Option<Seq<char>>)>,
) -> Result<Seq<ManifestPackageView>, ErrorView>
    decreases packages.len(),
{
    if packages.len() == 0 {
        Ok(Seq::empty())
    } else {
        match spec_table_find(m.packages, packages[0].0) {
            None => Err(ErrorView::PackageUnknown(packages[0].0, packages[0].1)),
            Some(builds) => match spec_get_build(builds, packages[0].1) {
                Err(e) => Err(e),
                Ok(build) => match builds.info {
                    None => Err(ErrorView::MissingPackageVersion(packages[0].0)),
                    Some(info) => match spec_downloads(m, packages.skip(1)) {
                        Err(e) => Err(e),
                        Ok(rest) => Ok(
                            seq![
                                ManifestPackageView {
                                    name: packages[0].0,
                                    version: info.version,
                                    git_commit: info.git_commit,
                                    supported_target: packages[0].1,
                                    tarballs: build.artifacts,
                                },
                            ] + rest,
                        ),
                    },
                },
            },
        }
    }
}

/// What resolving an install specification all the way to downloads
/// yields: the download descriptor of every package in the expanded set,
/// or the first error of either stage.
pub open spec fn spec_find_downloads(
    m: ManifestView,
    host: Seq<char>,
    spec: InstallSpecView,
) -> Result<Seq<ManifestPackageView>, ErrorView> {
    match spec_find_packages(m, host, spec) {
        Err(e) => Err(e),
        Ok(ps) => spec_downloads(m, ps),
    }
}

/// Inserts a resolved pair into a result list unless an equal pair is
/// already present, as `spec_insert_result` says.
fn insert_result(out: &mut Vec<(String, SupportedTarget)>, p: (String, SupportedTarget))
    ensures
        final(out).deep_view() == spec_insert_result(old(out).deep_view(), p.deep_view()),
{
    let ghost pd = p.deep_view();
    let n = out.len();
    let mut i: usize = 0;
    while i < n
        invariant
            n == out@.len(),
            i <= n,
            out == old(out),
            pd == p.deep_view(),
            forall|j: int| 0 <= j < i ==> out.deep_view()[j] != pd,
        decreases n - i,
    {
        if str_eq(out[i].0.as_str(), p.0.as_str()) && out[i].1.same_as(&p.1) {
            proof {
                assert(out.deep_view()[i as int] == pd);
                assert(out.deep_view().contains(pd));
            }
            return ;
        }
        i = i + 1;
    }
    proof {
        assert(!out.deep_view().contains(pd));
    }
    out.push(p);
    proof {
        assert(out.deep_view() =~~= old(out).deep_view().push(pd));
    }
}

impl Manifest {
    /// Resolves a component name for a host platform, as `spec_resolve`
    /// says.
    pub fn resolve_component_name_to_package(
        &self,
        target: &TargetTriple,
        component: &str,
    ) -> (r: Result<(String, SupportedTarget), Error>)
        ensures
            ({
                match spec_resolve(self.deep_view(), target@, component@) {
                    Ok(p) => r matches Ok(rp) && rp.deep_view() == p,
                    Err(e) => r matches Err(re) && re.deep_view() == e,
                }
            }),
    {
        let idx = match table_find_index(&self.component_name_map, target.as_str()) {
            Some(i) => {
                proof {
                    lemma_table_find_some(self.component_name_map.deep_view(), target@, i as int);
                }
                i
            },
            None => {
                proof {
                    lemma_table_find_none(self.component_name_map.deep_view(), target@);
                }
                return Err(Error::UnknownTarget(target.as_str().to_owned()));
            },
        };
        let table = &self.component_name_map[idx].1;
        match table_find_index(table, component) {
            Some(j) => {
                proof {
                    lemma_table_find_some(table.deep_view(), component@, j as int);
                }
                let p = &table[j].1;
                Ok((p.0.clone(), p.1.clone()))
            },
            None => {
                proof {
                    lemma_table_find_none(table.deep_view(), component@);
                }
                Err(
                    Error::PackageUnknown(
                        component.to_owned(),
                        SupportedTarget::Dependent(target.clone()),
                    ),
                )
            },
        }
    }

    /// Expands an install specification into the set of required
    /// (package, target-descriptor) pairs, as `spec_find_packages` says.
    pub fn find_packages_for_install(&self, host: &TargetTriple, spec: &InstallSpec) -> (r: Result<
        Vec<(String, SupportedTarget)>,
        Error,
    >)
        ensures
            ({
                match spec_find_packages(self.deep_view(), host@, spec.deep_view()) {
                    Ok(ps) => r matches Ok(v) && v.deep_view() == ps,
                    Err(e) => r matches Err(re) && re.deep_view() == e,
                }
            }),
    {
        let ghost mv = self.deep_view();
        let ghost specv = spec.deep_view();
        let mut result: Vec<(String, SupportedTarget)> = Vec::new();
        let pidx = match table_find_index(&self.profiles, spec.profile.as_str()) {
            Some(i) => {
                proof {
                    lemma_table_find_some(self.profiles.deep_view(), spec.profile@, i as int);
                }
                i
            },
            None => {
                proof {
                    lemma_table_find_none(self.profiles.deep_view(), spec.profile@);
                }
                return Err(Error::UnknownProfile(spec.profile.clone()));
            },
        };
        let profile_components = &self.profiles[pidx].1;
        let ghost pcv = profile_components.deep_view();
        let n = profile_components.len();
        proof {
            assert(pcv.skip(0) =~= pcv);
            assert(result.deep_view() =~= Seq::<(Seq<char>, Option<Seq<char>>)>::empty());
        }
        for i in 0..n
            invariant
                n == profile_components@.len(),
                pcv == profile_components.deep_view(),
                pcv.len() == n,
                mv == self.deep_view(),
                specv == spec.deep_view(),
                spec_table_find(mv.profiles, specv.profile) == Some(pcv),
                spec_find_packages(mv, host@, specv) == (match spec_profile_packages(
                    mv,
                    host@,
                    pcv.skip(i as int),
                    result.deep_view(),
                ) {
                    Err(e) => Err::<Seq<(Seq<char>, Option<Seq<char>>)>, ErrorView>(e),
                    Ok(acc1) => match spec_request_packages(mv, host@, specv.components, acc1) {
                        Err(e) => Err(e),
                        Ok(acc2) => spec_target_packages(mv, host@, specv.targets, acc2),
                    },
                }),
        {
            let ghost rest = pcv.skip(i as int);
            proof {
                assert(rest[0] == pcv[i as int]);
                assert(rest.skip(1) =~= pcv.skip(i as int + 1));
            }
            match self.resolve_component_name_to_package(host, profile_components[i].as_str()) {
                Ok(package) => {
                    insert_result(&mut result, package);
                },
                Err(e) => {
                    match e {
                        Error::PackageUnknown(_, _) => {
                            // Tolerated: profiles may list components absent
                            // on this host, and profile membership is not
                            // user input.
                        },
                        other => {
                            return Err(other);
                        },
                    }
                },
            }
        }
        proof {
            assert(pcv.skip(n as int) =~= Seq::<Seq<char>>::empty());
        }
        let m = spec.components.len();
        let ghost cv = specv.components;
        proof {
            assert(cv.skip(0) =~= cv);
        }
        for i in 0..m
            invariant
                m == spec.components@.len(),
                cv == spec.components.deep_view(),
                cv.len() == m,
                mv == self.deep_view(),
                specv == spec.deep_view(),
                spec_find_packages(mv, host@, specv) == (match spec_request_packages(
                    mv,
                    host@,
                    cv.skip(i as int),
                    result.deep_view(),
                ) {
                    Err(e) => Err::<Seq<(Seq<char>, Option<Seq<char>>)>, ErrorView>(e),
                    Ok(acc2) => spec_target_packages(mv, host@, specv.targets, acc2),
                }),
        {
            let ghost rest = cv.skip(i as int);
            proof {
                assert(rest[0] == cv[i as int]);
                assert(rest.skip(1) =~= cv.skip(i as int + 1));
            }
            match self.resolve_component_name_to_package(host, spec.components[i].as_str()) {
                Ok(package) => {
                    insert_result(&mut result, package);
                },
                Err(e) => {
                    return Err(e);
                },
            }
        }
        proof {
            assert(cv.skip(m as int) =~= Seq::<Seq<char>>::empty());
        }
        let k = spec.targets.len();
        let ghost tv = specv.targets;
        proof {
            assert(tv.skip(0) =~= tv);
        }
        for i in 0..k
            invariant
                k == spec.targets@.len(),
                tv == spec.targets.deep_view(),
                tv.len() == k,
                mv == self.deep_view(),
                specv == spec.deep_view(),
                spec_find_packages(mv, host@, specv) == spec_target_packages(
                    mv,
                    host@,
                    tv.skip(i as int),
                    result.deep_view(),
                ),
        {
            let ghost rest = tv.skip(i as int);
            proof {
                assert(rest[0] == tv[i as int]);
                assert(rest.skip(1) =~= tv.skip(i as int + 1));
            }
            let target = &spec.targets[i];
            let t = match TargetTriple::parse(target.as_str()) {
                Some(t) => t,
                None => {
                    return Err(Error::TargetParse(target.clone()));
                },
            };
            let mut component = "rust-std-".to_owned();
            component.append(t.as_str());
            match self.resolve_component_name_to_package(host, component.as_str()) {
                Ok(package) => {
                    insert_result(&mut result, package);
                },
                Err(e) => {
                    return Err(e);
                },
            }
        }
        proof {
            assert(tv.skip(k as int) =~= Seq::<Seq<char>>::empty());
        }
        Ok(result)
    }

    /// Expands an install specification all the way to download
    /// descriptors, as `spec_find_downloads` says.
    pub fn find_downloads_for_install(&self, host: &TargetTriple, spec: &InstallSpec) -> (r:
        Result<Vec<ManifestPackage>, Error>)
        ensures
            ({
                match spec_find_downloads(self.deep_view(), host@, spec.deep_view()) {
                    Ok(ds) => r matches Ok(v) && v.deep_view() == ds,
                    Err(e) => r matches Err(re) && re.deep_view() == e,
                }
            }),
    {
        let ghost mv = self.deep_view();
        let packages = match self.find_packages_for_install(host, spec) {
            Ok(ps) => ps,
            Err(e) => {
                return Err(e);
            },
        };
        let ghost psv = packages.deep_view();
        let mut result: Vec<ManifestPackage> = Vec::new();
        let n = packages.len();
        proof {
            assert(psv.skip(0) =~= psv);
            assert(result.deep_view() + spec_downloads(mv, psv)->Ok_0
                =~= spec_downloads(mv, psv)->Ok_0);
        }
        for i in 0..n
            invariant
                n == packages@.len(),
                psv == packages.deep_view(),
                psv.len() == n,
                mv == self.deep_view(),
                spec_find_packages(mv, host@, spec.deep_view()) == Ok::<
                    Seq<(Seq<char>, Option<Seq<char>>)>,
                    ErrorView,
                >(psv),
                spec_downloads(mv, psv) == (match spec_downloads(mv, psv.skip(i as int)) {
                    Err(e) => Err::<Seq<ManifestPackageView>, ErrorView>(e),
                    Ok(rest) => Ok::<Seq<ManifestPackageView>, ErrorView>(
                        result.deep_view() + rest,
                    ),
                }),
        {
            let ghost rest = psv.skip(i as int);
            proof {
                assert(rest[0] == psv[i as int]);
                assert(rest.skip(1) =~= psv.skip(i as int + 1));
            }
            let package_name = &packages[i].0;
            let target = &packages[i].1;
            let bidx = match table_find_index(&self.packages, package_name.as_str()) {
                Some(b) => {
                    proof {
                        lemma_table_find_some(self.packages.deep_view(), package_name@, b as int);
                    }
                    b
                },
                None => {
                    proof {
                        lemma_table_find_none(self.packages.deep_view(), package_name@);
                    }
                    return Err(
                        Error::PackageUnknown(package_name.clone(), target.clone()),
                    );
                },
            };
            let builds = &self.packages[bidx].1;
            let build = match builds.get(target) {
                Ok(b) => b,
                Err(e) => {
                    return Err(e);
                },
            };
            let info = match &builds.info {
                Some(info) => info,
                None => {
                    return Err(Error::MissingPackageVersion(package_name.clone()));
                },
            };
            let package = ManifestPackage {
                name: package_name.clone(),
                version: info.version.clone(),
                git_commit: info.git_commit.clone(),
                supported_target: target.clone(),
                tarballs: build.artifacts,
            };
            let ghost prev = result.deep_view();
            let ghost pkgv = package.deep_view();
            result.push(package);
            proof {
                assert(result.deep_view() =~~= prev.push(pkgv));
                assert((prev + (seq![pkgv] + spec_downloads(mv, psv.skip(i as int + 1))->Ok_0))
                    =~= (result.deep_view() + spec_downloads(mv, psv.skip(i as int + 1))->Ok_0));
            }
        }
        proof {
            assert(psv.skip(n as int) =~= Seq::<(Seq<char>, Option<Seq<char>>)>::empty());
            assert(result.deep_view() + Seq::<ManifestPackageView>::empty() =~= result.deep_view());
        }
        Ok(result)
    }
}

/// The names of the declared profiles, in document order.
pub open spec fn spec_profile_names(profiles: Seq<(Seq<char>, Seq<Seq<char>>)>) -> Seq<Seq<char>> {
    profiles.map_values(|p: (Seq<char>, Seq<Seq<char>>)| p.0)
}

/// Copies a vector of strings, preserving its views.
fn clone_string_vec(src: &Vec<String>) -> (r: Vec<String>)
    ensures
        r.deep_view() == src.deep_view(),
{
    let mut out: Vec<String> = Vec::new();
    let n = src.len();
    proof {
        assert(out.deep_view() =~~= src.deep_view().take(0));
    }
    for i in 0..n
        invariant
            n == src@.len(),
            out@.len() == i,
            out.deep_view() == src.deep_view().take(i as int),
    {
        let s = src[i].clone();
        proof {
            assert(s == src@[i as int]);
        }
        let ghost prev = out.deep_view();
        let ghost prev_raw = out@;
        out.push(s);
        proof {
            let a = out.deep_view();
            let b = src.deep_view().take(i as int + 1);
            assert(out@ == prev_raw.push(src@[i as int]));
            assert(a.len() == i + 1);
            assert(b.len() == i + 1);
            assert forall|k: int| 0 <= k < i + 1 implies a[k] == b[k] by {
                assert(b[k] == src.deep_view()[k]);
                assert(a[k] == out@[k].deep_view());
                if k < i {
                    assert(out@[k] == prev_raw[k]);
                    assert(a[k] == prev[k]);
                    assert(prev[k] == src.deep_view().take(i as int)[k]);
                } else {
                    assert(out@[k] == src@[i as int]);
                }
            }
            assert(a =~= b);
        }
    }
    proof {
        assert(src.deep_view().take(n as int) =~= src.deep_view());
    }
    out
}

impl Manifest {
    /// The manifest's release date.
    pub fn get_date(&self) -> (r: ToolDate)
        ensures
            (r.year as int, r.month as int, r.day as int) == self.deep_view().date,
    {
        self.date
    }

    /// The manifest format version text.
    pub fn get_version(&self) -> (r: &str)
        ensures
            r@ == self.deep_view().version,
    {
        self.version.as_str()
    }

    /// The names of the declared profiles, in document order.
    pub fn get_profiles(&self) -> (r: Vec<String>)
        ensures
            r.deep_view() == spec_profile_names(self.deep_view().profiles),
    {
        let mut out: Vec<String> = Vec::new();
        let n = self.profiles.len();
        proof {
            assert(out.deep_view() =~= spec_profile_names(self.deep_view().profiles).take(0));
        }
        for i in 0..n
            invariant
                n == self.profiles@.len(),
                out@.len() == i,
                out.deep_view() == spec_profile_names(self.deep_view().profiles).take(i as int),
        {
            let s = self.profiles[i].0.clone();
            proof {
                assert(s == self.profiles@[i as int].0);
            }
            out.push(s);
            proof {
                assert(spec_profile_names(self.deep_view().profiles)[i as int]
                    == self.deep_view().profiles[i as int].0);
                assert(out.deep_view() =~= spec_profile_names(self.deep_view().profiles).take(
                    i as int + 1,
                ));
            }
        }
        proof {
            let all = spec_profile_names(self.deep_view().profiles);
            assert(all.take(n as int) =~= all);
        }
        out
    }

    /// The component names a profile lists, or `None` for an unknown
    /// profile name.
    pub fn get_profile_components(&self, profile: &str) -> (r: Option<Vec<String>>)
        ensures
            ({
                match spec_table_find(self.deep_view().profiles, profile@) {
                    Some(c) => r matches Some(v) && v.deep_view() == c,
                    None => r is None,
                }
            }),
    {
        match table_find_index(&self.profiles, profile) {
            Some(i) => {
                proof {
                    lemma_table_find_some(self.profiles.deep_view(), profile@, i as int);
                }
                Some(clone_string_vec(&self.profiles[i].1))
            },
            None => {
                proof {
                    lemma_table_find_none(self.profiles.deep_view(), profile@);
                }
                None
            },
        }
    }
}

/// A component registered for a host can be looked up under its canonical
/// name and, when the rename table knows a pre-rename alias, under that
/// alias as well — and the two lookups yield the identical pair. The bare
/// names exist when the descriptor covers the host; the target-suffixed
/// names exist whenever the descriptor is target-specific.
pub proof fn lemma_alias_and_canonical_agree(
    m: Seq<(Seq<char>, (Seq<char>, Option<Seq<char>>))>,
    host: Seq<char>,
    canon: Seq<char>,
    st: Option<Seq<char>>,
    inv: Seq<(Seq<char>, Seq<char>)>,
)
    requires
        spec_supports(st, host),
    ensures
        ({
            let m1 = spec_register_comp(m, host, canon, st, inv);
            &&& spec_table_find(m1, canon) == Some((canon, st))
            &&& (spec_table_find(inv, canon) matches Some(alias) ==> spec_table_find(m1, alias)
                == Some((canon, st)))
        }),
{
    let v = (canon, st);
    let ma1 = match st {
        Some(t) => spec_table_set(m, canon + "-"@ + t, v),
        None => m,
    };
    let ma = spec_table_set(ma1, canon, v);
    lemma_table_set_finds(ma1, canon, v);
    assert(spec_register(m, host, canon, st, canon) == ma);
    match spec_table_find(inv, canon) {
        None => {
            assert(spec_register_comp(m, host, canon, st, inv) == ma);
        },
        Some(alias) => {
            let mb1 = match st {
                Some(t) => spec_table_set(ma, alias + "-"@ + t, v),
                None => ma,
            };
            let m1 = spec_table_set(mb1, alias, v);
            assert(spec_register(ma, host, canon, st, alias) == m1);
            assert(spec_register_comp(m, host, canon, st, inv) == m1);
            lemma_table_set_finds(mb1, alias, v);
            if alias == canon {
            } else {
                lemma_table_set_preserves(mb1, alias, v, canon);
                match st {
                    Some(t) => {
                        if alias + "-"@ + t == canon {
                            lemma_table_set_finds(ma, alias + "-"@ + t, v);
                        } else {
                            lemma_table_set_preserves(ma, alias + "-"@ + t, v, canon);
                        }
                    },
                    None => {},
                }
            }
        },
    }
}

/// Expanding a profile cannot fail merely because the profile lists a
/// component that is absent on the queried host: with the host's name
/// table present, every profile component either resolves or is silently
/// skipped.
pub proof fn lemma_profile_packages_ok(
    m: ManifestView,
    host: Seq<char>,
    comps: Seq<Seq<char>>,
    acc: Seq<(Seq<char>, Option<Seq<char>>)>,
)
    requires
        spec_table_find(m.component_name_map, host) is Some,
    ensures
        spec_profile_packages(m, host, comps, acc) is Ok,
    decreases comps.len(),
{
    if comps.len() > 0 {
        match spec_resolve(m, host, comps[0]) {
            Ok(p) => {
                lemma_profile_packages_ok(m, host, comps.skip(1), spec_insert_result(acc, p));
            },
            Err(e) => {
                assert(e is PackageUnknown);
                lemma_profile_packages_ok(m, host, comps.skip(1), acc);
            },
        }
    }
}

/// With the host declared and no explicit requests, expanding an install
/// specification always succeeds, whatever the profile lists.
pub proof fn lemma_profile_expansion_tolerant(
    m: ManifestView,
    host: Seq<char>,
    spec: InstallSpecView,
)
    requires
        spec_table_find(m.component_name_map, host) is Some,
        spec_table_find(m.profiles, spec.profile) is Some,
        spec.components.len() == 0,
        spec.targets.len() == 0,
    ensures
        spec_find_packages(m, host, spec) is Ok,
{
    let comps = spec_table_find(m.profiles, spec.profile)->Some_0;
    lemma_profile_packages_ok(m, host, comps, Seq::empty());
    let acc1 = spec_profile_packages(m, host, comps, Seq::empty())->Ok_0;
    assert(spec_request_packages(m, host, spec.components, acc1) == Ok::<
        Seq<(Seq<char>, Option<Seq<char>>)>,
        ErrorView,
    >(acc1));
    assert(spec_target_packages(m, host, spec.targets, acc1) == Ok::<
        Seq<(Seq<char>, Option<Seq<char>>)>,
        ErrorView,
    >(acc1));
}

/// An explicit request for a component that is absent on the host fails,
/// even though the same name would be tolerated inside a profile.
pub proof fn lemma_explicit_request_fails(
    m: ManifestView,
    host: Seq<char>,
    spec: InstallSpecView,
    c: Seq<char>,
)
    requires
        spec_table_find(m.component_name_map, host) is Some,
        spec_table_find(m.profiles, spec.profile) is Some,
        spec_table_find(spec_table_find(m.component_name_map, host)->Some_0, c) is None,
        spec.components == seq![c],
    ensures
        spec_find_packages(m, host, spec) == Err::<
            Seq<(Seq<char>, Option<Seq<char>>)>,
            ErrorView,
        >(ErrorView::PackageUnknown(c, Some(host))),
{
    let comps = spec_table_find(m.profiles, spec.profile)->Some_0;
    lemma_profile_packages_ok(m, host, comps, Seq::empty());
    let acc1 = spec_profile_packages(m, host, comps, Seq::empty())->Ok_0;
    assert(spec.components[0] == c);
    assert(spec_resolve(m, host, c) == Err::<(Seq<char>, Option<Seq<char>>), ErrorView>(
        ErrorView::PackageUnknown(c, Some(host)),
    ));
}

/// A package set containing a target-independent package whose lone build
/// is unavailable can never expand into downloads: no spurious artifact is
/// produced for it, the expansion fails.
pub proof fn lemma_unavailable_blocks_downloads(
    m: ManifestView,
    ps: Seq<(Seq<char>, Option<Seq<char>>)>,
    name: Seq<char>,
    st: Option<Seq<char>>,
)
    requires
        ps.contains((name, st)),
        spec_table_find(m.packages, name) matches Some(pb) && pb.artifacts
            == TargetMapView::Independent(Option::<BuildView>::None),
    ensures
        spec_downloads(m, ps) is Err,
    decreases ps.len(),
{
    if ps[0] == (name, st) {
        let pb = spec_table_find(m.packages, name)->Some_0;
        assert(spec_get_build(pb, st) is Err);
    } else {
        let i = choose|i: int| 0 <= i < ps.len() && ps[i] == (name, st);
        assert(ps.skip(1)[i - 1] == (name, st));
        assert(ps.skip(1).contains((name, st)));
        lemma_unavailable_blocks_downloads(m, ps.skip(1), name, st);
    }
}

/// The same, stated of the whole expansion: when the expanded package set
/// contains such a package, resolving downloads fails.
pub proof fn lemma_unavailable_package_no_download(
    m: ManifestView,
    host: Seq<char>,
    spec: InstallSpecView,
    name: Seq<char>,
    st: Option<Seq<char>>,
)
    requires
        spec_find_packages(m, host, spec) matches Ok(ps) && ps.contains((name, st)),
        spec_table_find(m.packages, name) matches Some(pb) && pb.artifacts
            == TargetMapView::Independent(Option::<BuildView>::None),
    ensures
        spec_find_downloads(m, host, spec) is Err,
{
    let ps = spec_find_packages(m, host, spec)->Ok_0;
    lemma_unavailable_blocks_downloads(m, ps, name, st);
}

/// The conflict error is raised for a package exactly when its target
/// table holds the universal sentinel together with at least one other
/// key. The statement excludes tables with an unparsable specific target
/// key, where translation stops on that key first.
pub proof fn lemma_conflict_in_dependent(name: Seq<char>, targets: Seq<(Seq<char>, RawBuildView)>)
    requires
        forall|i: int|
            0 <= i < targets.len() ==> targets[i].0 == "*"@ || spec_triple_canon(targets[i].0)
                is Some,
    ensures
        spec_dependent_targets(name, targets) == Err::<
            Seq<(Seq<char>, Option<BuildView>)>,
            ErrorView,
        >(ErrorView::ConflictingTargetDependence(name)) <==> exists|i: int|
            0 <= i < targets.len() && targets[i].0 == "*"@,
    decreases targets.len(),
{
    if targets.len() == 0 {
    } else if targets[0].0 == "*"@ {
    } else {
        assert forall|i: int|
            0 <= i < targets.skip(1).len() implies targets.skip(1)[i].0 == "*"@
            || spec_triple_canon(targets.skip(1)[i].0) is Some by {
            assert(targets.skip(1)[i] == targets[i + 1]);
        }
        lemma_conflict_in_dependent(name, targets.skip(1));
        if exists|i: int| 0 <= i < targets.len() && targets[i].0 == "*"@ {
            let i = choose|i: int| 0 <= i < targets.len() && targets[i].0 == "*"@;
            assert(targets.skip(1)[i - 1] == targets[i]);
            assert(exists|j: int| 0 <= j < targets.skip(1).len() && targets.skip(1)[j].0 == "*"@);
        }
        if exists|j: int| 0 <= j < targets.skip(1).len() && targets.skip(1)[j].0 == "*"@ {
            let j = choose|j: int|
                0 <= j < targets.skip(1).len() && targets.skip(1)[j].0 == "*"@;
            assert(targets[j + 1] == targets.skip(1)[j]);
            assert(exists|i: int| 0 <= i < targets.len() && targets[i].0 == "*"@);
        }
    }
}

/// `ConflictingTargetDependence` is raised for a package iff its target
/// table holds the universal sentinel and at least one other key, given
/// that every other key parses as a triple.
pub proof fn lemma_conflicting_target_dependence(
    name: Seq<char>,
    targets: Seq<(Seq<char>, RawBuildView)>,
)
    requires
        forall|i: int|
            0 <= i < targets.len() ==> targets[i].0 == "*"@ || spec_triple_canon(targets[i].0)
                is Some,
    ensures
        spec_package_targets(name, targets) == Err::<TargetMapView, ErrorView>(
            ErrorView::ConflictingTargetDependence(name),
        ) <==> ((exists|i: int| 0 <= i < targets.len() && targets[i].0 == "*"@) && targets.len()
            > 1),
{
    lemma_conflict_in_dependent(name, targets);
    if targets.len() == 1 && targets[0].0 == "*"@ {
    } else if targets.len() == 1 {
        assert(!(exists|i: int| 0 <= i < targets.len() && targets[i].0 == "*"@) || targets[0].0
            == "*"@);
    }
}

/// Strict byte-wise lexicographic order is irreflexive.
pub proof fn lemma_bytes_lt_irrefl(a: Seq<u8>)
    ensures
        !spec_bytes_lt(a, a),
    decreases a.len(),
{
    if a.len() > 0 {
        lemma_bytes_lt_irrefl(a.skip(1));
    }
}

/// Strict byte-wise lexicographic order is transitive.
pub proof fn lemma_bytes_lt_trans(a: Seq<u8>, b: Seq<u8>, c: Seq<u8>)
    requires
        spec_bytes_lt(a, b),
        spec_bytes_lt(b, c),
    ensures
        spec_bytes_lt(a, c),
    decreases a.len(),
{
    if a.len() > 0 && b.len() > 0 && c.len() > 0 {
        if a[0] == b[0] && b[0] == c[0] {
            lemma_bytes_lt_trans(a.skip(1), b.skip(1), c.skip(1));
        }
    }
}

} // verus!
