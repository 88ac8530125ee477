use rust_toolchain_manifest::date::ToolDate;
use rust_toolchain_manifest::error::Error;
use rust_toolchain_manifest::hash_value::HashValue;
use rust_toolchain_manifest::manifest::{Compression, Digest, InstallSpec, Manifest, RemoteBinary, ManifestPackage};
use rust_toolchain_manifest::manifest_v2;
use rust_toolchain_manifest::supported_target::{SupportedTarget, TargetTriple};

const X86: &str = "x86_64-unknown-linux-gnu";
const ARM: &str = "aarch64-unknown-linux-gnu";
const WASM: &str = "wasm32-unknown-unknown";

fn hv(s: &str) -> HashValue {
    HashValue::parse_hex(s).expect("test digest must parse")
}

fn triple(s: &str) -> TargetTriple {
    TargetTriple::parse(s).expect("test triple must parse")
}

fn dependent(s: &str) -> SupportedTarget {
    SupportedTarget::Dependent(triple(s))
}

fn plain_build(available: bool) -> manifest_v2::PackageBuild {
    manifest_v2::PackageBuild {
        available,
        gz_hash: Some(hv("aa11")),
        gz_url: Some("https://example.invalid/pkg.tar.gz".to_string()),
        xz_hash: Some(hv("bb22")),
        xz_url: Some("https://example.invalid/pkg.tar.xz".to_string()),
        components: None,
        extensions: None,
    }
}

fn anchor_build(comps: &[(&str, &str)]) -> manifest_v2::PackageBuild {
    let components = comps
        .iter()
        .map(|(package, target)| manifest_v2::Component {
            package: package.to_string(),
            target: target.to_string(),
        })
        .collect();
    manifest_v2::PackageBuild {
        available: true,
        gz_hash: Some(hv("cc33")),
        gz_url: Some("https://example.invalid/rust.tar.gz".to_string()),
        xz_hash: None,
        xz_url: None,
        components: Some(components),
        extensions: None,
    }
}

fn package(version: Option<&str>, commit: Option<&str>, targets: Vec<(&str, manifest_v2::PackageBuild)>) -> manifest_v2::Package {
    manifest_v2::Package {
        version: version.map(str::to_string),
        git_commit_hash: commit.map(hv),
        targets: targets.into_iter().map(|(k, v)| (k.to_string(), v)).collect(),
    }
}

fn raw_manifest(
    profiles: Vec<(&str, Vec<&str>)>,
    renames: Vec<(&str, &str)>,
    packages: Vec<(&str, manifest_v2::Package)>,
) -> manifest_v2::Manifest {
    manifest_v2::Manifest {
        manifest_version: "2".to_string(),
        date: "2022-11-30".to_string(),
        profiles: profiles
            .into_iter()
            .map(|(name, comps)| (name.to_string(), comps.into_iter().map(str::to_string).collect()))
            .collect(),
        renames: renames
            .into_iter()
            .map(|(from, to)| (from.to_string(), manifest_v2::Rename { to: to.to_string() }))
            .collect(),
        artifacts: Vec::new(),
        packages: packages.into_iter().map(|(k, v)| (k.to_string(), v)).collect(),
    }
}

/// The manifest most tests resolve against: `rustc` only on x86-64,
/// `rust-std` also for wasm, a target-independent but unavailable
/// `rust-src`, a renamed `clippy-preview`, and an aarch64 host that
/// declares no components of its own.
fn standard_manifest() -> manifest_v2::Manifest {
    raw_manifest(
        vec![("minimal", vec!["rustc"]), ("default", vec!["rustc", "clippy"])],
        vec![("clippy", "clippy-preview")],
        vec![
            (
                "rust",
                package(
                    Some("1.65.0"),
                    Some("0011"),
                    vec![
                        (
                            X86,
                            anchor_build(&[
                                ("rustc", X86),
                                ("rust-std", WASM),
                                ("rust-src", "*"),
                                ("clippy-preview", X86),
                            ]),
                        ),
                        (ARM, anchor_build(&[])),
                    ],
                ),
            ),
            ("rustc", package(Some("1.65.0"), Some("2233"), vec![(X86, plain_build(true))])),
            (
                "rust-std",
                package(Some("1.65.0"), Some("4455"), vec![(X86, plain_build(true)), (WASM, plain_build(true))]),
            ),
            ("rust-src", package(Some("1.65.0"), Some("6677"), vec![("*", plain_build(false))])),
            ("clippy-preview", package(Some("1.65.0"), Some("8899"), vec![(X86, plain_build(true))])),
        ],
    )
}

fn spec(profile: &str, components: &[&str], targets: &[&str]) -> InstallSpec {
    InstallSpec {
        profile: profile.to_string(),
        components: components.iter().map(|s| s.to_string()).collect(),
        targets: targets.iter().map(|s| s.to_string()).collect(),
    }
}

#[test]
fn minimal_profile_resolves_on_declared_host() {
    let m = Manifest::from_v2(standard_manifest()).unwrap();
    let packages = m
        .find_packages_for_install(&triple(X86), &spec("minimal", &[], &[]))
        .unwrap();
    assert_eq!(packages.len(), 1);
    assert_eq!(packages[0].0, "rustc");
    assert_eq!(packages[0].1, dependent(X86));
}

#[test]
fn minimal_profile_skips_component_absent_on_host() {
    let m = Manifest::from_v2(standard_manifest()).unwrap();
    let packages = m
        .find_packages_for_install(&triple(ARM), &spec("minimal", &[], &[]))
        .unwrap();
    assert!(packages.is_empty());
}

#[test]
fn explicit_request_for_absent_component_fails() {
    let m = Manifest::from_v2(standard_manifest()).unwrap();
    let result = m.find_packages_for_install(&triple(ARM), &spec("minimal", &["rustc"], &[]));
    match result {
        Err(Error::PackageUnknown(name, _)) => assert_eq!(name, "rustc"),
        other => panic!("expected PackageUnknown, got {:?}", other),
    }
}

#[test]
fn extra_target_resolves_std_component() {
    let m = Manifest::from_v2(standard_manifest()).unwrap();
    let packages = m
        .find_packages_for_install(&triple(X86), &spec("minimal", &[], &[WASM]))
        .unwrap();
    assert_eq!(packages.len(), 2);
    assert_eq!(packages[1].0, "rust-std");
    assert_eq!(packages[1].1, dependent(WASM));
}

#[test]
fn extra_target_without_std_component_fails() {
    let m = Manifest::from_v2(standard_manifest()).unwrap();
    let result = m.find_packages_for_install(&triple(ARM), &spec("minimal", &[], &[WASM]));
    match result {
        Err(Error::PackageUnknown(name, _)) => {
            assert_eq!(name, format!("rust-std-{}", WASM));
        }
        other => panic!("expected PackageUnknown, got {:?}", other),
    }
}

#[test]
fn alias_and_canonical_name_resolve_identically() {
    let m = Manifest::from_v2(standard_manifest()).unwrap();
    let host = triple(X86);
    let via_alias = m.resolve_component_name_to_package(&host, "clippy").unwrap();
    let via_canonical = m
        .resolve_component_name_to_package(&host, "clippy-preview")
        .unwrap();
    assert_eq!(via_alias, via_canonical);
    assert_eq!(via_alias.0, "clippy-preview");
    assert_eq!(via_alias.1, dependent(X86));
}

#[test]
fn suffixed_component_name_resolves_from_any_host() {
    let m = Manifest::from_v2(standard_manifest()).unwrap();
    let host = triple(X86);
    let resolved = m
        .resolve_component_name_to_package(&host, &format!("rust-std-{}", WASM))
        .unwrap();
    assert_eq!(resolved.0, "rust-std");
    assert_eq!(resolved.1, dependent(WASM));
}

#[test]
fn unknown_host_is_reported() {
    let m = Manifest::from_v2(standard_manifest()).unwrap();
    let host = triple("riscv64gc-unknown-linux-gnu");
    match m.resolve_component_name_to_package(&host, "rustc") {
        Err(Error::UnknownTarget(t)) => assert_eq!(t, "riscv64gc-unknown-linux-gnu"),
        other => panic!("expected UnknownTarget, got {:?}", other),
    }
}

#[test]
fn unknown_profile_is_reported() {
    let m = Manifest::from_v2(standard_manifest()).unwrap();
    match m.find_packages_for_install(&triple(X86), &spec("everything", &[], &[])) {
        Err(Error::UnknownProfile(p)) => assert_eq!(p, "everything"),
        other => panic!("expected UnknownProfile, got {:?}", other),
    }
}

#[test]
fn duplicate_requests_collapse() {
    let m = Manifest::from_v2(standard_manifest()).unwrap();
    let packages = m
        .find_packages_for_install(&triple(X86), &spec("minimal", &["rustc", "rustc"], &[]))
        .unwrap();
    assert_eq!(packages.len(), 1);
}

#[test]
fn unavailable_target_independent_package_blocks_downloads() {
    let m = Manifest::from_v2(standard_manifest()).unwrap();
    let packages = m
        .find_packages_for_install(&triple(X86), &spec("minimal", &["rust-src"], &[]))
        .unwrap();
    assert!(packages.contains(&("rust-src".to_string(), SupportedTarget::Independent)));
    match m.find_downloads_for_install(&triple(X86), &spec("minimal", &["rust-src"], &[])) {
        Err(Error::PackageUnavailable(name, st)) => {
            assert_eq!(name, "rust-src");
            assert_eq!(st, SupportedTarget::Independent);
        }
        other => panic!("expected PackageUnavailable, got {:?}", other),
    }
}

#[test]
fn downloads_carry_version_commit_and_artifacts() {
    let m = Manifest::from_v2(standard_manifest()).unwrap();
    let downloads = m
        .find_downloads_for_install(&triple(X86), &spec("minimal", &[], &[]))
        .unwrap();
    assert_eq!(downloads.len(), 1);
    let d = &downloads[0];
    assert_eq!(d.name, "rustc");
    assert_eq!(d.version, "1.65.0");
    assert_eq!(d.git_commit, hv("2233"));
    assert_eq!(d.supported_target, dependent(X86));
    assert_eq!(d.tarballs.len(), 2);
    assert_eq!(d.tarballs[0].0, Compression::Gzip);
    assert_eq!(d.tarballs[0].1.url, "https://example.invalid/pkg.tar.gz");
    assert_eq!(d.tarballs[0].1.digests, vec![(Digest::Sha256, hv("aa11"))]);
    assert_eq!(d.tarballs[1].0, Compression::Xz);
    assert_eq!(d.tarballs[1].1.digests, vec![(Digest::Sha256, hv("bb22"))]);
}

#[test]
fn conflicting_target_dependence_is_rejected() {
    let mut raw = standard_manifest();
    raw.packages.push((
        "weird".to_string(),
        package(Some("1.0.0"), Some("ff"), vec![("*", plain_build(true)), (X86, plain_build(true))]),
    ));
    match Manifest::from_v2(raw) {
        Err(Error::ConflictingTargetDependence(name)) => assert_eq!(name, "weird"),
        other => panic!("expected ConflictingTargetDependence, got {:?}", other),
    }
}

#[test]
fn conflicting_target_dependence_sentinel_last() {
    let mut raw = standard_manifest();
    raw.packages.push((
        "weird".to_string(),
        package(Some("1.0.0"), Some("ff"), vec![(X86, plain_build(true)), ("*", plain_build(true))]),
    ));
    match Manifest::from_v2(raw) {
        Err(Error::ConflictingTargetDependence(name)) => assert_eq!(name, "weird"),
        other => panic!("expected ConflictingTargetDependence, got {:?}", other),
    }
}

#[test]
fn lone_universal_sentinel_is_target_independent() {
    let raw = standard_manifest();
    // `rust-src` is declared exactly under the sentinel and translates fine.
    assert!(Manifest::from_v2(raw).is_ok());
}

#[test]
fn missing_rust_package_is_fatal() {
    let raw = raw_manifest(
        vec![("minimal", vec!["rustc"])],
        vec![],
        vec![("rustc", package(Some("1.65.0"), Some("2233"), vec![(X86, plain_build(true))]))],
    );
    match Manifest::from_v2(raw) {
        Err(Error::RustMissing) => {}
        other => panic!("expected RustMissing, got {:?}", other),
    }
}

#[test]
fn invalid_date_is_a_structural_error() {
    let mut raw = standard_manifest();
    raw.date = "2022-13-45".to_string();
    match Manifest::from_v2(raw) {
        Err(Error::IncorrectManifestStructure(field)) => assert_eq!(field, "date"),
        other => panic!("expected IncorrectManifestStructure, got {:?}", other),
    }
}

#[test]
fn invalid_target_key_is_reported() {
    let mut raw = standard_manifest();
    raw.packages.push((
        "broken".to_string(),
        package(Some("1.0.0"), Some("ff"), vec![("zzznotanarch-zzz", plain_build(true))]),
    ));
    match Manifest::from_v2(raw) {
        Err(Error::TargetParse(t)) => assert_eq!(t, "zzznotanarch-zzz"),
        other => panic!("expected TargetParse, got {:?}", other),
    }
}

#[test]
fn missing_version_metadata_blocks_download() {
    let mut raw = standard_manifest();
    raw.packages.push((
        "anchor-only".to_string(),
        package(None, None, vec![(X86, plain_build(true))]),
    ));
    if let Some(rust) = raw.packages.iter_mut().find(|(n, _)| n == "rust") {
        if let Some((_, build)) = rust.1.targets.iter_mut().find(|(t, _)| t == X86) {
            build
                .components
                .as_mut()
                .unwrap()
                .push(manifest_v2::Component { package: "anchor-only".to_string(), target: X86.to_string() });
        }
    }
    let m = Manifest::from_v2(raw).unwrap();
    match m.find_downloads_for_install(&triple(X86), &spec("minimal", &["anchor-only"], &[])) {
        Err(Error::MissingPackageVersion(name)) => assert_eq!(name, "anchor-only"),
        other => panic!("expected MissingPackageVersion, got {:?}", other),
    }
}

#[test]
fn universal_component_over_dependent_package_is_reported() {
    let mut raw = standard_manifest();
    raw.packages.push((
        "oddpkg".to_string(),
        package(Some("1.0.0"), Some("ee"), vec![(X86, plain_build(true))]),
    ));
    if let Some(rust) = raw.packages.iter_mut().find(|(n, _)| n == "rust") {
        if let Some((_, build)) = rust.1.targets.iter_mut().find(|(t, _)| t == X86) {
            build
                .components
                .as_mut()
                .unwrap()
                .push(manifest_v2::Component { package: "oddpkg".to_string(), target: "*".to_string() });
        }
    }
    let m = Manifest::from_v2(raw).unwrap();
    match m.find_downloads_for_install(&triple(X86), &spec("minimal", &["oddpkg"], &[])) {
        Err(Error::PackageNotTargetIndependent(name)) => assert_eq!(name, "oddpkg"),
        other => panic!("expected PackageNotTargetIndependent, got {:?}", other),
    }
}

#[test]
fn unknown_host_fails_even_during_profile_expansion() {
    // An unknown host is fatal everywhere: only PackageUnknown is tolerated
    // while expanding a profile.
    let m = Manifest::from_v2(standard_manifest()).unwrap();
    let host = triple("riscv64gc-unknown-linux-gnu");
    match m.find_packages_for_install(&host, &spec("minimal", &[], &[])) {
        Err(Error::UnknownTarget(t)) => assert_eq!(t, "riscv64gc-unknown-linux-gnu"),
        other => panic!("expected UnknownTarget, got {:?}", other),
    }
}

#[test]
fn unparsable_extra_target_is_reported() {
    let m = Manifest::from_v2(standard_manifest()).unwrap();
    match m.find_packages_for_install(&triple(X86), &spec("minimal", &[], &["zzznotanarch-zzz"])) {
        Err(Error::TargetParse(t)) => assert_eq!(t, "zzznotanarch-zzz"),
        other => panic!("expected TargetParse, got {:?}", other),
    }
}

#[test]
fn unique_identifier_is_largest_digest_regardless_of_order() {
    let gz = (
        Compression::Gzip,
        RemoteBinary {
            url: "https://example.invalid/a.tar.gz".to_string(),
            digests: vec![(Digest::Sha256, hv("0102"))],
        },
    );
    let xz = (
        Compression::Xz,
        RemoteBinary {
            url: "https://example.invalid/a.tar.xz".to_string(),
            digests: vec![(Digest::Sha256, hv("02"))],
        },
    );
    let forward = ManifestPackage {
        name: "rustc".to_string(),
        version: "1.65.0".to_string(),
        git_commit: hv("2233"),
        supported_target: SupportedTarget::Independent,
        tarballs: vec![gz.clone(), xz.clone()],
    };
    let backward = ManifestPackage {
        name: "rustc".to_string(),
        version: "1.65.0".to_string(),
        git_commit: hv("2233"),
        supported_target: SupportedTarget::Independent,
        tarballs: vec![xz, gz],
    };
    assert_eq!(forward.unique_identifier(), hv("02"));
    assert_eq!(backward.unique_identifier(), hv("02"));
}

#[test]
fn getters_expose_the_model() {
    let m = Manifest::from_v2(standard_manifest()).unwrap();
    assert_eq!(m.get_version(), "2");
    assert_eq!(m.get_date(), ToolDate { year: 2022, month: 11, day: 30 });
    let mut profiles = m.get_profiles();
    profiles.sort();
    assert_eq!(profiles, vec!["default".to_string(), "minimal".to_string()]);
    assert_eq!(m.get_profile_components("minimal"), Some(vec!["rustc".to_string()]));
    assert_eq!(m.get_profile_components("nope"), None);
}

#[test]
fn describe_reports_errors_in_words() {
    let e = Error::UnknownProfile("everything".to_string());
    assert_eq!(e.describe(), "Unknown profile: everything");
    let e = Error::PackageUnavailable("rust-src".to_string(), SupportedTarget::Independent);
    assert_eq!(e.describe(), "Package rust-src unavailable for target *");
}
