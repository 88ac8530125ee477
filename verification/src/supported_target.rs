//! Target descriptors: a package build either supports every platform or
//! one specific platform triple. Triples are represented by the canonical
//! text that target-lexicon gives them, so two triples are the same exactly
//! when their canonical texts are equal.

use crate::text::str_eq;
use core::str::FromStr;
use vstd::prelude::*;
use vstd::string::StrSliceExecFns;

verus! {

/// What target-lexicon makes of a target-triple string: `None` where the
/// string is not recognized as a triple, otherwise the canonical rendering
/// of the parsed triple.
pub uninterp spec fn spec_triple_canon(s: Seq<char>) -> Option<Seq<char>>;

/// A platform triple, held as the canonical text that target-lexicon's
/// parser and renderer give it.
#[derive(Debug, Eq, Hash, PartialEq)]
pub struct TargetTriple {
    text: String,
}

impl View for TargetTriple {
    type V = Seq<char>;

    closed spec fn view(&self) -> Seq<char> {
        self.text@
    }
}

impl DeepView for TargetTriple {
    type V = Seq<char>;

    open spec fn deep_view(&self) -> Seq<char> {
        self.view()
    }
}

impl Clone for TargetTriple {
    fn clone(&self) -> (r: Self)
        ensures
            r@ == self@,
    {
        TargetTriple { text: self.text.clone() }
    }
}

impl TargetTriple {
    /// Relies on target-lexicon's `Triple::from_str` and its `Display`
    /// rendering; both are functions of the string alone. Parsing fails
    /// exactly where the text is not a recognizable triple.
    #[verifier::external_body]
    fn canonicalize(s: &str) -> (r: Option<String>)
        ensures
            r matches Some(t) ==> spec_triple_canon(s@) == Some(t@),
            r is None ==> spec_triple_canon(s@) is None,
    {
        match target_lexicon::Triple::from_str(s) {
            Ok(t) => Some(t.to_string()),
            Err(_) => None,
        }
    }

    /// Parses a triple string, yielding its canonical form.
    pub fn parse(s: &str) -> (r: Option<TargetTriple>)
        ensures
            r matches Some(t) ==> spec_triple_canon(s@) == Some(t@),
            r is None <==> spec_triple_canon(s@) is None,
    {
        match Self::canonicalize(s) {
            Some(text) => Some(TargetTriple { text }),
            None => None,
        }
    }

    /// The canonical text of the triple.
    pub fn as_str(&self) -> (r: &str)
        ensures
            r@ == self@,
    {
        self.text.as_str()
    }

    /// Triple equality: equality of canonical texts.
    pub fn same_as(&self, other: &TargetTriple) -> (r: bool)
        ensures
            r == (self@ == other@),
    {
        self.text == other.text
    }
}

/// The targets a package supports.
#[derive(Debug, Eq, Hash, PartialEq)]
pub enum SupportedTarget {
    /// The package supports all targets.
    Independent,
    /// The package is specific to a particular target.
    Dependent(TargetTriple),
}

impl View for SupportedTarget {
    type V = Option<Seq<char>>;

    open spec fn view(&self) -> Option<Seq<char>> {
        match self {
            SupportedTarget::Independent => None,
            SupportedTarget::Dependent(t) => Some(t@),
        }
    }
}

impl DeepView for SupportedTarget {
    type V = Option<Seq<char>>;

    open spec fn deep_view(&self) -> Option<Seq<char>> {
        self.view()
    }
}

impl Clone for SupportedTarget {
    fn clone(&self) -> (r: Self)
        ensures
            r@ == self@,
    {
        match self {
            SupportedTarget::Independent => SupportedTarget::Independent,
            SupportedTarget::Dependent(t) => SupportedTarget::Dependent(t.clone()),
        }
    }
}

/// Whether a descriptor covers a platform: the universal descriptor covers
/// every platform, a specific one covers exactly its own.
pub open spec fn spec_supports(st: Option<Seq<char>>, platform: Seq<char>) -> bool {
    match st {
        None => true,
        Some(t) => t == platform,
    }
}

impl SupportedTarget {
    /// Whether this descriptor covers the given platform.
    pub fn supports(&self, other: &TargetTriple) -> (r: bool)
        ensures
            r == spec_supports(self@, other@),
    {
        match self {
            SupportedTarget::Independent => true,
            SupportedTarget::Dependent(triple) => triple.same_as(other),
        }
    }

    /// Descriptor equality: same universality, or same specific triple.
    pub fn same_as(&self, other: &SupportedTarget) -> (r: bool)
        ensures
            r == (self@ == other@),
    {
        match (self, other) {
            (SupportedTarget::Independent, SupportedTarget::Independent) => true,
            (SupportedTarget::Dependent(a), SupportedTarget::Dependent(b)) => a.same_as(b),
            _ => false,
        }
    }

    /// What parsing a descriptor string yields: the lone universal-target
    /// sentinel `*`, or a recognizable triple.
    pub open spec fn spec_parse(s: Seq<char>) -> Option<Option<Seq<char>>> {
        if s == "*"@ {
            Some(None)
        } else {
            match spec_triple_canon(s) {
                Some(t) => Some(Some(t)),
                None => None,
            }
        }
    }

    /// Parses a descriptor string: `*` means universal, anything else must
    /// be a recognizable triple.
    pub fn parse(s: &str) -> (r: Option<SupportedTarget>)
        ensures
            r matches Some(st) ==> Self::spec_parse(s@) == Some(st@),
            r is None <==> Self::spec_parse(s@) is None,
    {
        if str_eq(s, "*") {
            Some(SupportedTarget::Independent)
        } else {
            match TargetTriple::parse(s) {
                Some(t) => Some(SupportedTarget::Dependent(t)),
                None => None,
            }
        }
    }

    /// The text of the descriptor: the universal sentinel, or the triple.
    pub fn to_text(&self) -> (r: String)
        ensures
            r@ == spec_st_text(self@),
    {
        match self {
            SupportedTarget::Independent => star_str().to_owned(),
            SupportedTarget::Dependent(t) => t.as_str().to_owned(),
        }
    }
}

/// The text of a descriptor: `*` for universal, else the triple text.
pub open spec fn spec_st_text(st: Option<Seq<char>>) -> Seq<char> {
    match st {
        None => seq!['*'],
        Some(t) => t,
    }
}

/// The text "*", the universal-target sentinel.
fn star_str() -> (r: &'static str)
    ensures
        r@ == seq!['*'],
{
    proof {
        reveal_strlit("*");
        assert("*"@ =~= seq!['*']);
    }
    "*"
}

} // verus!
