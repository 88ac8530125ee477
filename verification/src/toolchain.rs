//! Toolchain specifications: a release channel, an optional release date
//! and an optional host triple, parsed from the usual dashed form and
//! rendered back, with the download location of the channel's manifest.

use crate::date::parse_date;
use crate::date::spec_date_parse;
use crate::date::spec_date_text;
use crate::date::ToolDate;
use crate::supported_target::spec_triple_canon;
use crate::supported_target::TargetTriple;
use crate::text::hyphen_str;
use crate::text::parse_u16;
use crate::text::spec_dec_text;
use crate::text::spec_parse_u16;
use crate::text::spec_split;
use crate::text::split_char;
use crate::text::str_eq;
use crate::text::u32_text;
use crate::text::views_of;
use vstd::prelude::*;
use vstd::string::StrSliceExecFns;
use vstd::string::StringExecFns;

verus! {

/// A Rust release channel.
#[derive(Debug, Clone, Copy, Eq, PartialEq, Structural)]
pub enum Channel {
    /// The stable channel.
    Stable,
    /// The beta channel.
    Beta,
    /// The nightly channel.
    Nightly,
    /// A specific compiler version: major, minor and an optional patch
    /// number.
    Version(u16, u16, Option<u16>),
}

impl DeepView for Channel {
    type V = Channel;

    open spec fn deep_view(&self) -> Channel {
        *self
    }
}

/// Errors which can occur while parsing a channel name.
#[derive(Debug, Clone, Copy, Eq, PartialEq, Structural)]
pub enum ChannelParseError {
    /// A version component failed to parse as an integer.
    IntegerParse,
    /// A version had an invalid number of dot-separated components.
    InvalidVersionComponentCount(usize),
}

impl DeepView for ChannelParseError {
    type V = ChannelParseError;

    open spec fn deep_view(&self) -> ChannelParseError {
        *self
    }
}

/// The version numbers a list of numerals yields, or `None` as soon as one
/// of them fails to parse.
pub open spec fn spec_parse_components(parts: Seq<Seq<char>>) -> Option<Seq<u16>>
    decreases parts.len(),
{
    if parts.len() == 0 {
        Some(Seq::empty())
    } else {
        match spec_parse_u16(parts[0]) {
            None => None,
            Some(v) => match spec_parse_components(parts.skip(1)) {
                None => None,
                Some(rest) => Some(seq![v] + rest),
            },
        }
    }
}

/// What parsing a channel name yields: one of the three named channels, or
/// a dot-separated version with two or three components.
pub open spec fn spec_channel_parse(s: Seq<char>) -> Result<Channel, ChannelParseError> {
    if s == "stable"@ {
        Ok(Channel::Stable)
    } else if s == "beta"@ {
        Ok(Channel::Beta)
    } else if s == "nightly"@ {
        Ok(Channel::Nightly)
    } else {
        match spec_parse_components(spec_split(s, '.')) {
            None => Err(ChannelParseError::IntegerParse),
            Some(cs) => if cs.len() < 2 || 3 < cs.len() {
                Err(ChannelParseError::InvalidVersionComponentCount(cs.len() as usize))
            } else {
                Ok(
                    Channel::Version(
                        cs[0],
                        cs[1],
                        if cs.len() == 3 {
                            Some(cs[2])
                        } else {
                            None
                        },
                    ),
                )
            },
        }
    }
}

/// The text of a channel: its name, or its dotted version numerals.
pub open spec fn spec_channel_text(c: Channel) -> Seq<char> {
    match c {
        Channel::Stable => "stable"@,
        Channel::Beta => "beta"@,
        Channel::Nightly => "nightly"@,
        Channel::Version(major, minor, patch) => match patch {
            None => spec_dec_text(major as int) + seq!['.'] + spec_dec_text(minor as int),
            Some(p) => spec_dec_text(major as int) + seq!['.'] + spec_dec_text(minor as int)
                + seq!['.'] + spec_dec_text(p as int),
        },
    }
}

/// The text ".".
fn dot_str() -> (r: &'static str)
    ensures
        r@ == seq!['.'],
{
    proof {
        reveal_strlit(".");
        assert("."@ =~= seq!['.']);
    }
    "."
}

impl Channel {
    /// Parses a channel name, as `spec_channel_parse` says.
    pub fn parse(s: &str) -> (r: Result<Channel, ChannelParseError>)
        ensures
            r == spec_channel_parse(s@),
    {
        if str_eq(s, "stable") {
            return Ok(Channel::Stable);
        }
        if str_eq(s, "beta") {
            return Ok(Channel::Beta);
        }
        if str_eq(s, "nightly") {
            return Ok(Channel::Nightly);
        }
        let parts = split_char(s, '.');
        let ghost pv = views_of(parts@);
        let mut comps: Vec<u16> = Vec::new();
        let n = parts.len();
        proof {
            assert(pv.skip(0) =~= pv);
            assert(comps@ + spec_parse_components(pv)->Some_0
                =~= spec_parse_components(pv)->Some_0);
        }
        for i in 0..n
            invariant
                n == parts@.len(),
                pv == views_of(parts@),
                pv.len() == n,
                s@ != "stable"@ && s@ != "beta"@ && s@ != "nightly"@,
                pv == spec_split(s@, '.'),
                spec_parse_components(pv) == (match spec_parse_components(pv.skip(i as int)) {
                    None => None::<Seq<u16>>,
                    Some(rest) => Some(comps@ + rest),
                }),
        {
            let ghost rest = pv.skip(i as int);
            proof {
                assert(rest[0] == pv[i as int]);
                assert(rest.skip(1) =~= pv.skip(i as int + 1));
            }
            match parse_u16(parts[i].as_str()) {
                None => {
                    return Err(ChannelParseError::IntegerParse);
                },
                Some(v) => {
                    let ghost prev = comps@;
                    comps.push(v);
                    proof {
                        assert((prev + (seq![v] + spec_parse_components(
                            pv.skip(i as int + 1),
                        )->Some_0)) =~= (comps@ + spec_parse_components(
                            pv.skip(i as int + 1),
                        )->Some_0));
                    }
                },
            }
        }
        proof {
            assert(pv.skip(n as int) =~= Seq::<Seq<char>>::empty());
            assert(comps@ + Seq::<u16>::empty() =~= comps@);
        }
        if comps.len() < 2 || 3 < comps.len() {
            return Err(ChannelParseError::InvalidVersionComponentCount(comps.len()));
        }
        let patch: Option<u16> = if comps.len() == 3 {
            Some(comps[2])
        } else {
            None
        };
        Ok(Channel::Version(comps[0], comps[1], patch))
    }

    /// The text of the channel, as `spec_channel_text` says.
    pub fn to_text(&self) -> (r: String)
        ensures
            r@ == spec_channel_text(*self),
    {
        match self {
            Channel::Stable => "stable".to_owned(),
            Channel::Beta => "beta".to_owned(),
            Channel::Nightly => "nightly".to_owned(),
            Channel::Version(major, minor, patch) => {
                let mut s = u32_text(*major as u32);
                s.append(dot_str());
                s.append(u32_text(*minor as u32).as_str());
                if let Some(p) = patch {
                    s.append(dot_str());
                    s.append(u32_text(*p as u32).as_str());
                }
                proof {
                    assert(s@ =~= spec_channel_text(*self));
                }
                s
            },
        }
    }
}

/// Pieces joined with single hyphens between them.
pub open spec fn spec_join_hyphen(parts: Seq<Seq<char>>) -> Seq<char>
    decreases parts.len(),
{
    if parts.len() == 0 {
        Seq::empty()
    } else if parts.len() == 1 {
        parts[0]
    } else {
        parts[0] + seq!['-'] + spec_join_hyphen(parts.skip(1))
    }
}

/// Joining after appending one piece appends a hyphen and the piece.
pub proof fn lemma_join_push(parts: Seq<Seq<char>>, x: Seq<char>)
    requires
        parts.len() >= 1,
    ensures
        spec_join_hyphen(parts.push(x)) == spec_join_hyphen(parts) + seq!['-'] + x,
    decreases parts.len(),
{
    let p = parts.push(x);
    assert(p[0] == parts[0]);
    if parts.len() == 1 {
        assert(p.skip(1) =~= seq![x]);
        assert(spec_join_hyphen(p.skip(1)) == x);
    } else {
        assert(p.skip(1) =~= parts.skip(1).push(x));
        lemma_join_push(parts.skip(1), x);
        assert((parts[0] + seq!['-'] + (spec_join_hyphen(parts.skip(1)) + seq!['-'] + x)) =~= ((
        parts[0] + seq!['-'] + spec_join_hyphen(parts.skip(1))) + seq!['-'] + x));
    }
}

/// Joins a range of the pieces with hyphens between them.
fn join_range(parts: &Vec<String>, from: usize, to: usize) -> (r: String)
    requires
        from <= to <= parts@.len(),
    ensures
        r@ == spec_join_hyphen(views_of(parts@).subrange(from as int, to as int)),
{
    let mut s = String::new();
    let mut first = true;
    let ghost pv = views_of(parts@);
    proof {
        assert(pv.subrange(from as int, from as int) =~= Seq::<Seq<char>>::empty());
    }
    let mut i = from;
    while i < to
        invariant
            from <= i <= to <= parts@.len(),
            pv == views_of(parts@),
            pv.len() == parts@.len(),
            first <==> i == from,
            s@ == spec_join_hyphen(pv.subrange(from as int, i as int)),
        decreases to - i,
    {
        let ghost sub = pv.subrange(from as int, i as int);
        if first {
            first = false;
        } else {
            s.append(hyphen_str());
        }
        s.append(parts[i].as_str());
        proof {
            assert(pv[i as int] == parts@[i as int]@);
            assert(pv.subrange(from as int, i as int + 1) =~= sub.push(pv[i as int]));
            if i == from {
                assert(sub.push(pv[i as int]) =~= seq![pv[i as int]]);
                assert(s@ =~= pv[i as int]);
            } else {
                lemma_join_push(sub, pv[i as int]);
                assert(s@ =~= spec_join_hyphen(sub) + seq!['-'] + pv[i as int]);
            }
        }
        i = i + 1;
    }
    s
}

/// Joins string pieces with single hyphens between them, as
/// `spec_join_hyphen` says.
pub fn intersperse_hyphen(parts: &Vec<String>) -> (r: String)
    ensures
        r@ == spec_join_hyphen(views_of(parts@)),
{
    let r = join_range(parts, 0, parts.len());
    proof {
        assert(views_of(parts@).subrange(0, parts@.len() as int) =~= views_of(parts@));
    }
    r
}

/// View of a toolchain specification.
pub struct ToolchainView {
    /// The release channel.
    pub channel: Channel,
    /// The manifest date, when one was given.
    pub date: Option<ToolDate>,
    /// The host triple's canonical text, when one was given.
    pub host: Option<Seq<char>>,
}

/// Specification of a Rust toolchain, as typically written: a channel,
/// optionally followed by a date, optionally followed by a host triple,
/// all separated by hyphens.
#[derive(Debug)]
pub struct Toolchain {
    /// The release channel.
    pub channel: Channel,
    /// The manifest date.
    pub date: Option<ToolDate>,
    /// The host triple.
    pub host: Option<TargetTriple>,
}

impl DeepView for Toolchain {
    type V = ToolchainView;

    open spec fn deep_view(&self) -> ToolchainView {
        ToolchainView { channel: self.channel, date: self.date, host: self.host.deep_view() }
    }
}

impl Clone for Toolchain {
    fn clone(&self) -> (r: Self)
        ensures
            r.deep_view() == self.deep_view(),
    {
        let host = match &self.host {
            Some(h) => Some(h.clone()),
            None => None,
        };
        Toolchain { channel: self.channel, date: self.date, host }
    }
}

/// Parse errors for a toolchain string.
#[derive(Debug, Eq, PartialEq)]
pub enum ParseError {
    /// The channel name was invalid.
    Channel(ChannelParseError),
    /// The target name was invalid; the payload is the text.
    Target(String),
}

/// View of a toolchain parse error.
pub enum ParseErrorView {
    /// The channel name was invalid.
    Channel(ChannelParseError),
    /// The target name was invalid.
    Target(Seq<char>),
}

impl DeepView for ParseError {
    type V = ParseErrorView;

    open spec fn deep_view(&self) -> ParseErrorView {
        match self {
            ParseError::Channel(e) => ParseErrorView::Channel(*e),
            ParseError::Target(s) => ParseErrorView::Target(s@),
        }
    }
}

/// What parsing a toolchain string yields. The text is split on hyphens;
/// the first piece must name a channel; when at least three pieces follow
/// and the next three joined read as a date, they are the date; whatever
/// remains, joined, must then be a recognizable host triple.
pub open spec fn spec_toolchain_parse(s: Seq<char>) -> Result<ToolchainView, ParseErrorView> {
    let parts = spec_split(s, '-');
    match spec_channel_parse(parts[0]) {
        Err(e) => Err(ParseErrorView::Channel(e)),
        Ok(channel) => {
            let rest = parts.skip(1);
            let dated = rest.len() >= 3 && spec_date_parse(spec_join_hyphen(rest.take(3))) is Some;
            let date: Option<(int, int, int)> = if dated {
                spec_date_parse(spec_join_hyphen(rest.take(3)))
            } else {
                None
            };
            let rest2 = if dated {
                rest.skip(3)
            } else {
                rest
            };
            if rest2.len() == 0 {
                Ok(
                    ToolchainView {
                        channel,
                        date: spec_date_of_triple(date),
                        host: None,
                    },
                )
            } else {
                match spec_triple_canon(spec_join_hyphen(rest2)) {
                    None => Err(ParseErrorView::Target(spec_join_hyphen(rest2))),
                    Some(t) => Ok(
                        ToolchainView {
                            channel,
                            date: spec_date_of_triple(date),
                            host: Some(t),
                        },
                    ),
                }
            }
        },
    }
}

/// A date view from parsed (year, month, day) numbers, where they fit the
/// date type; parsed dates always do.
pub open spec fn spec_date_of_triple(d: Option<(int, int, int)>) -> Option<ToolDate> {
    match d {
        None => None,
        Some((y, m, dd)) => Some(
            ToolDate { year: y as i32, month: m as u8, day: dd as u8 },
        ),
    }
}

impl Toolchain {
    /// Parses a toolchain string, as `spec_toolchain_parse` says.
    pub fn parse(s: &str) -> (r: Result<Toolchain, ParseError>)
        ensures
            ({
                match spec_toolchain_parse(s@) {
                    Ok(t) => r matches Ok(rt) && rt.deep_view() == t,
                    Err(e) => r matches Err(re) && re.deep_view() == e,
                }
            }),
    {
        let parts = split_char(s, '-');
        let ghost pv = views_of(parts@);
        proof {
            crate::text::lemma_split_acc_len(Seq::empty(), s@, '-');
            assert(pv.len() >= 1);
            assert(pv[0] == parts@[0]@);
        }
        let channel = match Channel::parse(parts[0].as_str()) {
            Err(e) => {
                return Err(ParseError::Channel(e));
            },
            Ok(c) => c,
        };
        let ghost rest = pv.skip(1);
        let mut date: Option<ToolDate> = None;
        let mut idx: usize = 1;
        if parts.len() >= 4 {
            let candidate = join_range(&parts, 1, 4);
            proof {
                assert(pv.subrange(1, 4) =~= rest.take(3));
            }
            match parse_date(candidate.as_str()) {
                Some(d) => {
                    date = Some(d);
                    idx = 4;
                },
                None => {},
            }
        }
        proof {
            if parts@.len() < 4 {
                assert(rest.len() < 3);
            }
        }
        let host: Option<TargetTriple> = if idx < parts.len() {
            let candidate = join_range(&parts, idx, parts.len());
            proof {
                if idx == 4 {
                    assert(pv.subrange(4, pv.len() as int) =~= rest.skip(3));
                } else {
                    assert(pv.subrange(1, pv.len() as int) =~= rest);
                }
            }
            match TargetTriple::parse(candidate.as_str()) {
                None => {
                    return Err(ParseError::Target(candidate));
                },
                Some(t) => Some(t),
            }
        } else {
            proof {
                if idx == 4 {
                    assert(rest.skip(3) =~= Seq::<Seq<char>>::empty());
                } else {
                    assert(rest =~= Seq::<Seq<char>>::empty());
                }
            }
            None
        };
        Ok(Toolchain { channel, date, host })
    }

    /// The text of the toolchain: the channel, then the date and the host
    /// where present, separated by hyphens.
    pub fn to_text(&self) -> (r: String)
        ensures
            r@ == spec_toolchain_text(self.deep_view()),
    {
        let mut s = self.channel.to_text();
        if let Some(d) = &self.date {
            s.append(hyphen_str());
            s.append(d.to_text().as_str());
        }
        if let Some(h) = &self.host {
            s.append(hyphen_str());
            s.append(h.as_str());
        }
        proof {
            assert(s@ =~= spec_toolchain_text(self.deep_view()));
        }
        s
    }

    /// Returns the manifest location for the specified toolchain, as
    /// `spec_manifest_url` says.
    pub fn manifest_url(&self) -> (r: String)
        ensures
            r@ == spec_manifest_url(self.deep_view()),
    {
        if let Some(date) = &self.date {
            let mut s = "https://static.rust-lang.org/dist/".to_owned();
            s.append(date.to_text().as_str());
            s.append("/channel-rust-");
            s.append(self.channel.to_text().as_str());
            s.append(".toml");
            proof {
                assert(s@ =~= spec_manifest_url(self.deep_view()));
            }
            s
        } else {
            let mut s = "https://static.rust-lang.org/dist/channel-rust-".to_owned();
            s.append(self.channel.to_text().as_str());
            s.append(".toml");
            proof {
                assert(s@ =~= spec_manifest_url(self.deep_view()));
            }
            s
        }
    }
}

/// The text of a toolchain: channel, then date and host where present,
/// hyphen-separated.
pub open spec fn spec_toolchain_text(t: ToolchainView) -> Seq<char> {
    let with_date = match t.date {
        Some(d) => spec_channel_text(t.channel) + seq!['-'] + spec_date_text(d),
        None => spec_channel_text(t.channel),
    };
    match t.host {
        Some(h) => with_date + seq!['-'] + h,
        None => with_date,
    }
}

/// The manifest location of a toolchain: the dated release directory when
/// a date is present, else the top-level channel file.
pub open spec fn spec_manifest_url(t: ToolchainView) -> Seq<char> {
    match t.date {
        Some(d) => "https://static.rust-lang.org/dist/"@ + spec_date_text(d) + "/channel-rust-"@
            + spec_channel_text(t.channel) + ".toml"@,
        None => "https://static.rust-lang.org/dist/channel-rust-"@ + spec_channel_text(t.channel)
            + ".toml"@,
    }
}

} // verus!
