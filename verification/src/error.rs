//! Errors that can occur during manifest construction or querying.

use crate::supported_target::spec_st_text;
use crate::supported_target::SupportedTarget;
use vstd::prelude::*;
use vstd::string::StringExecFns;

verus! {

/// View of an error: the same variants over text and descriptor views.
pub enum ErrorView {
    /// The document did not conform to the expected structure.
    IncorrectManifestStructure(Seq<char>),
    /// A package was listed as both architecture-specific and independent.
    ConflictingTargetDependence(Seq<char>),
    /// The `rust` package was missing from the manifest.
    RustMissing,
    /// The package was unknown for the given target.
    PackageUnknown(Seq<char>, Option<Seq<char>>),
    /// The target platform was unknown.
    UnknownTarget(Seq<char>),
    /// The profile name was unknown.
    UnknownProfile(Seq<char>),
    /// A target triple could not be parsed.
    TargetParse(Seq<char>),
    /// A target-dependent package was used in a target-independent role.
    PackageNotTargetIndependent(Seq<char>),
    /// The package was recognized but not available for the target.
    PackageUnavailable(Seq<char>, Option<Seq<char>>),
    /// The package's version information was missing.
    MissingPackageVersion(Seq<char>),
}

/// Errors that can occur during manifest construction or querying.
#[derive(Debug, PartialEq, Eq)]
pub enum Error {
    /// The manifest did not conform to the expected structure (with a
    /// description of the offending field).
    IncorrectManifestStructure(String),
    /// A package was listed as both architecture-specific and independent.
    ConflictingTargetDependence(String),
    /// The `rust` package was missing from the manifest.
    RustMissing,
    /// The named package was unknown for the named target.
    PackageUnknown(String, SupportedTarget),
    /// The named target platform was unknown.
    UnknownTarget(String),
    /// The named toolchain profile was unknown.
    UnknownProfile(String),
    /// A target triple could not be parsed; the payload is the text.
    TargetParse(String),
    /// A target-dependent package was referred to in a target-independent
    /// context.
    PackageNotTargetIndependent(String),
    /// The package was recognized but not available for the named target.
    PackageUnavailable(String, SupportedTarget),
    /// The package's version information was missing.
    MissingPackageVersion(String),
}

impl DeepView for Error {
    type V = ErrorView;

    open spec fn deep_view(&self) -> ErrorView {
        match self {
            Error::IncorrectManifestStructure(s) => ErrorView::IncorrectManifestStructure(s@),
            Error::ConflictingTargetDependence(s) => ErrorView::ConflictingTargetDependence(s@),
            Error::RustMissing => ErrorView::RustMissing,
            Error::PackageUnknown(s, t) => ErrorView::PackageUnknown(s@, t.deep_view()),
            Error::UnknownTarget(s) => ErrorView::UnknownTarget(s@),
            Error::UnknownProfile(s) => ErrorView::UnknownProfile(s@),
            Error::TargetParse(s) => ErrorView::TargetParse(s@),
            Error::PackageNotTargetIndependent(s) => ErrorView::PackageNotTargetIndependent(s@),
            Error::PackageUnavailable(s, t) => ErrorView::PackageUnavailable(s@, t.deep_view()),
            Error::MissingPackageVersion(s) => ErrorView::MissingPackageVersion(s@),
        }
    }
}

/// The text describing an error, for callers that print them.
pub open spec fn spec_error_text(e: ErrorView) -> Seq<char> {
    match e {
        ErrorView::IncorrectManifestStructure(s) => "Manifest had incorrect structure: "@ + s,
        ErrorView::ConflictingTargetDependence(s) => "Package "@ + s
            + " listed as both target-dependent and independent"@,
        ErrorView::RustMissing => "Package rust was missing from manifest"@,
        ErrorView::PackageUnknown(n, st) => "Package "@ + n + " unknown for target "@ + spec_st_text(
            st,
        ),
        ErrorView::UnknownTarget(s) => "Unknown target: "@ + s,
        ErrorView::UnknownProfile(s) => "Unknown profile: "@ + s,
        ErrorView::TargetParse(s) => "Failed to parse target triple: "@ + s,
        ErrorView::PackageNotTargetIndependent(s) => "Attempted to treat package "@ + s
            + " as architecture independent"@,
        ErrorView::PackageUnavailable(n, st) => "Package "@ + n + " unavailable for target "@
            + spec_st_text(st),
        ErrorView::MissingPackageVersion(s) => "Missing versioning information for package "@ + s,
    }
}

impl Error {
    /// Describes the error in words, as `spec_error_text` says.
    pub fn describe(&self) -> (r: String)
        ensures
            r@ == spec_error_text(self.deep_view()),
    {
        match self {
            Error::IncorrectManifestStructure(s) => {
                let mut t = "Manifest had incorrect structure: ".to_owned();
                t.append(s.as_str());
                t
            },
            Error::ConflictingTargetDependence(s) => {
                let mut t = "Package ".to_owned();
                t.append(s.as_str());
                t.append(" listed as both target-dependent and independent");
                t
            },
            Error::RustMissing => "Package rust was missing from manifest".to_owned(),
            Error::PackageUnknown(n, st) => {
                let mut t = "Package ".to_owned();
                t.append(n.as_str());
                t.append(" unknown for target ");
                t.append(st.to_text().as_str());
                t
            },
            Error::UnknownTarget(s) => {
                let mut t = "Unknown target: ".to_owned();
                t.append(s.as_str());
                t
            },
            Error::UnknownProfile(s) => {
                let mut t = "Unknown profile: ".to_owned();
                t.append(s.as_str());
                t
            },
            Error::TargetParse(s) => {
                let mut t = "Failed to parse target triple: ".to_owned();
                t.append(s.as_str());
                t
            },
            Error::PackageNotTargetIndependent(s) => {
                let mut t = "Attempted to treat package ".to_owned();
                t.append(s.as_str());
                t.append(" as architecture independent");
                t
            },
            Error::PackageUnavailable(n, st) => {
                let mut t = "Package ".to_owned();
                t.append(n.as_str());
                t.append(" unavailable for target ");
                t.append(st.to_text().as_str());
                t
            },
            Error::MissingPackageVersion(s) => {
                let mut t = "Missing versioning information for package ".to_owned();
                t.append(s.as_str());
                t
            },
        }
    }
}

} // verus!
