//! Parsing and resolution of toolchain-distribution manifests.
//!
//! A manifest describes, per target platform, the installable packages of a
//! toolchain release: their versions, content digests and download locations.
//! This crate turns a decoded manifest document into a queryable model and
//! resolves an install specification (a profile plus extra components and
//! targets) into the concrete set of packages and downloadable artifacts.

pub mod date;
pub mod error;
pub mod hash_value;
pub mod manifest;
pub mod manifest_v2;
pub mod supported_target;
pub mod table;
pub mod text;
pub mod toolchain;

pub use error::Error;
pub use hash_value::HashValue;
pub use manifest::InstallSpec;
pub use manifest::Manifest;
pub use supported_target::SupportedTarget;
pub use toolchain::Toolchain;
