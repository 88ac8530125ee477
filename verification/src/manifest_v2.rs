//! The raw manifest document: the direct decoding of the document's fields,
//! with no validation beyond structural typing. Every table of the document
//! is held as an association list in document order; a decoder hands these
//! types over with the keys it found, and validation happens during model
//! construction.

use crate::hash_value::HashValue;
use vstd::prelude::*;

verus! {

/// View of a raw manifest document.
pub struct RawManifestView {
    /// The `manifest-version` field.
    pub manifest_version: Seq<char>,
    /// The `date` field, still as text.
    pub date: Seq<char>,
    /// Profile name to component-name list.
    pub profiles: Seq<(Seq<char>, Seq<Seq<char>>)>,
    /// Rename table: old name to new name.
    pub renames: Seq<(Seq<char>, Seq<char>)>,
    /// Standalone artifact table.
    pub artifacts: Seq<(Seq<char>, ArtifactView)>,
    /// Package name to package record.
    pub packages: Seq<(Seq<char>, RawPackageView)>,
}

/// View of a raw package record.
pub struct RawPackageView {
    /// The version text, when the package carries one.
    pub version: Option<Seq<char>>,
    /// The source commit digest, when the package carries one.
    pub git_commit_hash: Option<Seq<u8>>,
    /// Target key to per-target build record.
    pub targets: Seq<(Seq<char>, RawBuildView)>,
}

/// View of a raw per-target build record.
pub struct RawBuildView {
    /// The availability flag.
    pub available: bool,
    /// The gzip artifact digest, if declared.
    pub gz_hash: Option<Seq<u8>>,
    /// The gzip artifact location, if declared.
    pub gz_url: Option<Seq<char>>,
    /// The xz artifact digest, if declared.
    pub xz_hash: Option<Seq<u8>>,
    /// The xz artifact location, if declared.
    pub xz_url: Option<Seq<char>>,
    /// Declared core components, when present.
    pub components: Option<Seq<ComponentView>>,
    /// Declared extensions, when present.
    pub extensions: Option<Seq<ComponentView>>,
}

/// View of a sub-component descriptor.
pub struct ComponentView {
    /// The package backing the component.
    pub package: Seq<char>,
    /// The target descriptor string.
    pub target: Seq<char>,
}

/// View of a standalone artifact entry.
pub struct ArtifactView {
    /// Target key to artifact build list.
    pub targets: Seq<(Seq<char>, Seq<ArtifactBuildView>)>,
}

/// View of one standalone artifact build.
pub struct ArtifactBuildView {
    /// The artifact digest.
    pub hash_sha256: Seq<u8>,
    /// The artifact location.
    pub url: Seq<char>,
}

/// A raw manifest document, decoded but not yet validated.
#[derive(Clone, Debug)]
pub struct Manifest {
    /// The `manifest-version` field.
    pub manifest_version: String,
    /// The `date` field, still as text.
    pub date: String,
    /// Profile name to component-name list.
    pub profiles: Vec<(String, Vec<String>)>,
    /// Rename table: old name to its record.
    pub renames: Vec<(String, Rename)>,
    /// Standalone artifact table.
    pub artifacts: Vec<(String, Artifact)>,
    /// Package name to package record.
    pub packages: Vec<(String, Package)>,
}

impl DeepView for Manifest {
    type V = RawManifestView;

    open spec fn deep_view(&self) -> RawManifestView {
        RawManifestView {
            manifest_version: self.manifest_version@,
            date: self.date@,
            profiles: self.profiles.deep_view(),
            renames: self.renames.deep_view(),
            artifacts: self.artifacts.deep_view(),
            packages: self.packages.deep_view(),
        }
    }
}

/// A raw package record: optional version metadata and a per-target table
/// of build records.
#[derive(Clone, Debug)]
pub struct Package {
    /// The version text, when the package carries one.
    pub version: Option<String>,
    /// The source commit digest, when the package carries one.
    pub git_commit_hash: Option<HashValue>,
    /// Target key to per-target build record.
    pub targets: Vec<(String, PackageBuild)>,
}

impl DeepView for Package {
    type V = RawPackageView;

    open spec fn deep_view(&self) -> RawPackageView {
        RawPackageView {
            version: self.version.deep_view(),
            git_commit_hash: self.git_commit_hash.deep_view(),
            targets: self.targets.deep_view(),
        }
    }
}

/// A raw per-target build record: an availability flag, optional artifact
/// locations and digests, and optional component declarations.
#[derive(Clone, Debug)]
pub struct PackageBuild {
    /// The availability flag; when false, no artifact is present regardless
    /// of the other fields.
    pub available: bool,
    /// The gzip artifact digest, if declared.
    pub gz_hash: Option<HashValue>,
    /// The gzip artifact location, if declared.
    pub gz_url: Option<String>,
    /// The xz artifact digest, if declared.
    pub xz_hash: Option<HashValue>,
    /// The xz artifact location, if declared.
    pub xz_url: Option<String>,
    /// Declared core components, when present.
    pub components: Option<Vec<Component>>,
    /// Declared extensions, when present.
    pub extensions: Option<Vec<Component>>,
}

impl DeepView for PackageBuild {
    type V = RawBuildView;

    open spec fn deep_view(&self) -> RawBuildView {
        RawBuildView {
            available: self.available,
            gz_hash: self.gz_hash.deep_view(),
            gz_url: self.gz_url.deep_view(),
            xz_hash: self.xz_hash.deep_view(),
            xz_url: self.xz_url.deep_view(),
            components: self.components.deep_view(),
            extensions: self.extensions.deep_view(),
        }
    }
}

/// A rename record: the name a package is now known under.
#[derive(Clone, Debug)]
pub struct Rename {
    /// The new name.
    pub to: String,
}

impl DeepView for Rename {
    type V = Seq<char>;

    open spec fn deep_view(&self) -> Seq<char> {
        self.to@
    }
}

/// A standalone artifact entry: a per-target table of artifact builds.
#[derive(Clone, Debug)]
pub struct Artifact {
    /// Target key to artifact build list.
    pub targets: Vec<(String, Vec<ArtifactBuild>)>,
}

impl DeepView for Artifact {
    type V = ArtifactView;

    open spec fn deep_view(&self) -> ArtifactView {
        ArtifactView { targets: self.targets.deep_view() }
    }
}

/// One standalone artifact build: a digest and a location.
#[derive(Clone, Debug)]
pub struct ArtifactBuild {
    /// The artifact digest.
    pub hash_sha256: HashValue,
    /// The artifact location.
    pub url: String,
}

impl DeepView for ArtifactBuild {
    type V = ArtifactBuildView;

    open spec fn deep_view(&self) -> ArtifactBuildView {
        ArtifactBuildView { hash_sha256: self.hash_sha256@, url: self.url@ }
    }
}

/// A sub-component descriptor: a package name and a target descriptor
/// string.
#[derive(Clone, Debug)]
pub struct Component {
    /// The package backing the component.
    pub package: String,
    /// The target descriptor string: a triple, or the universal sentinel.
    pub target: String,
}

impl DeepView for Component {
    type V = ComponentView;

    open spec fn deep_view(&self) -> ComponentView {
        ComponentView { package: self.package@, target: self.target@ }
    }
}

} // verus!
