use rust_toolchain_manifest::date::{parse_date, ToolDate};
use rust_toolchain_manifest::supported_target::{SupportedTarget, TargetTriple};
use rust_toolchain_manifest::toolchain::intersperse_hyphen;
use rust_toolchain_manifest::toolchain::{Channel, ChannelParseError, ParseError, Toolchain};

#[test]
fn channel_parse_named_channels() {
    assert_eq!(Channel::parse("stable"), Ok(Channel::Stable));
    assert_eq!(Channel::parse("beta"), Ok(Channel::Beta));
    assert_eq!(Channel::parse("nightly"), Ok(Channel::Nightly));
}

#[test]
fn channel_parse_versions() {
    assert_eq!(Channel::parse("1.65"), Ok(Channel::Version(1, 65, None)));
    assert_eq!(Channel::parse("1.65.0"), Ok(Channel::Version(1, 65, Some(0))));
}

#[test]
fn channel_parse_bad_component_count() {
    assert_eq!(
        Channel::parse("1"),
        Err(ChannelParseError::InvalidVersionComponentCount(1))
    );
    assert_eq!(
        Channel::parse("1.2.3.4"),
        Err(ChannelParseError::InvalidVersionComponentCount(4))
    );
}

#[test]
fn channel_parse_bad_integer() {
    assert_eq!(Channel::parse("1.x"), Err(ChannelParseError::IntegerParse));
    assert_eq!(Channel::parse(""), Err(ChannelParseError::IntegerParse));
    assert_eq!(Channel::parse("1.70000"), Err(ChannelParseError::IntegerParse));
}

#[test]
fn channel_text_round() {
    assert_eq!(Channel::Stable.to_text(), "stable");
    assert_eq!(Channel::Version(1, 65, None).to_text(), "1.65");
    assert_eq!(Channel::Version(1, 65, Some(10)).to_text(), "1.65.10");
}

#[test]
fn toolchain_parse_full() {
    let t = Toolchain::parse("nightly-2022-11-30-x86_64-pc-windows-msvc").unwrap();
    assert_eq!(t.channel, Channel::Nightly);
    assert_eq!(t.date, Some(ToolDate { year: 2022, month: 11, day: 30 }));
    assert_eq!(
        t.host,
        Some(TargetTriple::parse("x86_64-pc-windows-msvc").unwrap())
    );
}

#[test]
fn toolchain_parse_channel_only() {
    let t = Toolchain::parse("stable").unwrap();
    assert_eq!(t.channel, Channel::Stable);
    assert_eq!(t.date, None);
    assert_eq!(t.host, None);
}

#[test]
fn toolchain_parse_host_without_date() {
    let t = Toolchain::parse("nightly-x86_64-unknown-linux-gnu").unwrap();
    assert_eq!(t.channel, Channel::Nightly);
    assert_eq!(t.date, None);
    assert_eq!(
        t.host,
        Some(TargetTriple::parse("x86_64-unknown-linux-gnu").unwrap())
    );
}

#[test]
fn toolchain_parse_rejects_invalid_date_as_host() {
    // The three pieces after the channel do not name a real calendar day,
    // so they are treated as the start of a host triple, which fails.
    match Toolchain::parse("nightly-2022-02-30-x86_64-unknown-linux-gnu") {
        Err(ParseError::Target(t)) => assert_eq!(t, "2022-02-30-x86_64-unknown-linux-gnu"),
        other => panic!("expected Target error, got {:?}", other),
    }
}

#[test]
fn toolchain_parse_bad_channel() {
    match Toolchain::parse("oops-2022-11-30") {
        Err(ParseError::Channel(ChannelParseError::IntegerParse)) => {}
        other => panic!("expected Channel error, got {:?}", other),
    }
}

#[test]
fn toolchain_text_round() {
    let t = Toolchain::parse("nightly-2022-11-30-x86_64-pc-windows-msvc").unwrap();
    assert_eq!(t.to_text(), "nightly-2022-11-30-x86_64-pc-windows-msvc");
    let t = Toolchain::parse("1.65.0").unwrap();
    assert_eq!(t.to_text(), "1.65.0");
}

#[test]
fn manifest_url_with_date() {
    let t = Toolchain::parse("nightly-2022-11-30-x86_64-pc-windows-msvc").unwrap();
    assert_eq!(
        t.manifest_url(),
        "https://static.rust-lang.org/dist/2022-11-30/channel-rust-nightly.toml"
    );
}

#[test]
fn manifest_url_without_date() {
    let t = Toolchain::parse("stable").unwrap();
    assert_eq!(
        t.manifest_url(),
        "https://static.rust-lang.org/dist/channel-rust-stable.toml"
    );
}

#[test]
fn parse_date_validates_calendar_days() {
    assert_eq!(
        parse_date("2022-11-30"),
        Some(ToolDate { year: 2022, month: 11, day: 30 })
    );
    assert_eq!(parse_date("2022-11-31"), None);
    assert_eq!(parse_date("2024-02-29"), Some(ToolDate { year: 2024, month: 2, day: 29 }));
    assert_eq!(parse_date("2023-02-29"), None);
    assert_eq!(parse_date("not-a-date"), None);
}

#[test]
fn date_text_pads_components() {
    let d = ToolDate { year: 987, month: 3, day: 7 };
    assert_eq!(d.to_text(), "0987-03-07");
    let d = ToolDate { year: 2022, month: 11, day: 30 };
    assert_eq!(d.to_text(), "2022-11-30");
}

#[test]
fn triple_parse_canonicalizes() {
    let t = TargetTriple::parse("x86_64-linux-gnu").expect("shorthand triple should parse");
    assert_eq!(t.as_str(), "x86_64-unknown-linux-gnu");
    assert!(TargetTriple::parse("zzznotanarch-zzz").is_none());
}

#[test]
fn supported_target_parse_and_supports() {
    let host = TargetTriple::parse("x86_64-unknown-linux-gnu").unwrap();
    let other = TargetTriple::parse("aarch64-unknown-linux-gnu").unwrap();
    let universal = SupportedTarget::parse("*").unwrap();
    assert!(universal.supports(&host));
    assert!(universal.supports(&other));
    let specific = SupportedTarget::parse("x86_64-unknown-linux-gnu").unwrap();
    assert!(specific.supports(&host));
    assert!(!specific.supports(&other));
    assert_eq!(universal.to_text(), "*");
    assert_eq!(specific.to_text(), "x86_64-unknown-linux-gnu");
}

#[test]
fn intersperse_hyphen_joins_pieces() {
    let parts: Vec<String> = vec!["a".to_string(), "b".to_string(), "c".to_string()];
    assert_eq!(intersperse_hyphen(&parts), "a-b-c");
    let one: Vec<String> = vec!["alone".to_string()];
    assert_eq!(intersperse_hyphen(&one), "alone");
    let none: Vec<String> = Vec::new();
    assert_eq!(intersperse_hyphen(&none), "");
}
