//! Small verified text utilities: character-wise string equality, splitting
//! on a separator, and decimal numerals.

use vstd::prelude::*;
use vstd::string::StrSliceExecFns;
use vstd::string::StringExecFns;

verus! {

/// The views of a sequence of strings.
pub open spec fn views_of(v: Seq<String>) -> Seq<Seq<char>> {
    v.map_values(|p: String| p@)
}

/// Character-wise string equality.
pub fn str_eq(a: &str, b: &str) -> (r: bool)
    ensures
        r == (a@ == b@),
{
    let na = a.unicode_len();
    let nb = b.unicode_len();
    if na != nb {
        return false;
    }
    let mut i: usize = 0;
    while i < na
        invariant
            na == a@.len(),
            na == b@.len(),
            i <= na,
            forall|j: int| 0 <= j < i ==> a@[j] == b@[j],
        decreases na - i,
    {
        if a.get_char(i) != b.get_char(i) {
            return false;
        }
        i = i + 1;
    }
    proof {
        assert(a@ =~= b@);
    }
    true
}

/// Splitting a character sequence on a separator, with `cur` the piece
/// gathered so far: every separator ends a piece, and the text after the
/// last separator is a piece even when empty.
pub open spec fn spec_split_acc(cur: Seq<char>, s: Seq<char>, sep: char) -> Seq<Seq<char>>
    decreases s.len(),
{
    if s.len() == 0 {
        seq![cur]
    } else if s[0] == sep {
        seq![cur] + spec_split_acc(Seq::empty(), s.skip(1), sep)
    } else {
        spec_split_acc(cur.push(s[0]), s.skip(1), sep)
    }
}

/// The pieces of `s` between occurrences of `sep`, in order. There is
/// always at least one piece; empty input yields one empty piece.
pub open spec fn spec_split(s: Seq<char>, sep: char) -> Seq<Seq<char>> {
    spec_split_acc(Seq::empty(), s, sep)
}

/// Splitting always yields at least one piece.
pub proof fn lemma_split_acc_len(cur: Seq<char>, s: Seq<char>, sep: char)
    ensures
        spec_split_acc(cur, s, sep).len() >= 1,
    decreases s.len(),
{
    if s.len() > 0 {
        if s[0] == sep {
            lemma_split_acc_len(Seq::empty(), s.skip(1), sep);
        } else {
            lemma_split_acc_len(cur.push(s[0]), s.skip(1), sep);
        }
    }
}

/// Splits a string on a separator character.
pub fn split_char(s: &str, sep: char) -> (r: Vec<String>)
    ensures
        views_of(r@) == spec_split(s@, sep),
{
    let n = s.unicode_len();
    let mut out: Vec<String> = Vec::new();
    let mut start: usize = 0;
    let mut i: usize = 0;
    proof {
        assert(s@.skip(0) =~= s@);
        assert(s@.subrange(0, 0) =~= Seq::<char>::empty());
        assert(views_of(out@) + spec_split_acc(Seq::empty(), s@, sep)
            =~= spec_split_acc(Seq::empty(), s@, sep));
    }
    while i < n
        invariant
            start <= i <= n,
            n == s@.len(),
            spec_split(s@, sep) == views_of(out@)
                + spec_split_acc(s@.subrange(start as int, i as int), s@.skip(i as int), sep),
        decreases n - i,
    {
        let ghost cur = s@.subrange(start as int, i as int);
        let ghost rest = s@.skip(i as int);
        proof {
            assert(rest[0] == s@[i as int]);
            assert(rest.skip(1) =~= s@.skip(i as int + 1));
        }
        let c = s.get_char(i);
        if c == sep {
            let ghost prev = out@;
            let piece = s.substring_char(start, i).to_owned();
            out.push(piece);
            start = i + 1;
            proof {
                assert(views_of(out@) =~= views_of(prev) + seq![cur]);
                assert(s@.subrange(start as int, i as int + 1) =~= Seq::<char>::empty());
                assert((views_of(prev) + seq![cur])
                    + spec_split_acc(Seq::empty(), s@.skip(i as int + 1), sep)
                    =~= views_of(prev)
                        + (seq![cur] + spec_split_acc(Seq::empty(), s@.skip(i as int + 1), sep)));
            }
        } else {
            proof {
                assert(cur.push(s@[i as int]) =~= s@.subrange(start as int, i as int + 1));
            }
        }
        i = i + 1;
    }
    let ghost cur = s@.subrange(start as int, n as int);
    let ghost prev = out@;
    let piece = s.substring_char(start, n).to_owned();
    out.push(piece);
    proof {
        assert(s@.skip(n as int) =~= Seq::<char>::empty());
        assert(views_of(out@) =~= views_of(prev) + seq![cur]);
    }
    out
}

/// The value of a decimal digit character, if it is one.
pub open spec fn spec_digit(c: char) -> Option<int> {
    let v = c as u32;
    if '0' as u32 <= v && v <= '9' as u32 {
        Some(v as int - '0' as int)
    } else {
        None
    }
}

/// Reads decimal digits left to right onto an accumulated value, failing on
/// a non-digit character or once the value leaves the 16-bit range (further
/// digits could only grow it).
pub open spec fn spec_u16_digits(acc: int, s: Seq<char>) -> Option<int>
    decreases s.len(),
{
    if s.len() == 0 {
        Some(acc)
    } else {
        match spec_digit(s[0]) {
            None => None,
            Some(d) => if acc * 10 + d > 65535 {
                None
            } else {
                spec_u16_digits(acc * 10 + d, s.skip(1))
            },
        }
    }
}

/// What parsing a 16-bit decimal numeral yields: an optional leading plus
/// sign, then at least one digit, with the value in range; anything else is
/// `None`.
pub open spec fn spec_parse_u16(s: Seq<char>) -> Option<u16> {
    let digits = if s.len() > 0 && s[0] == '+' {
        s.skip(1)
    } else {
        s
    };
    if digits.len() == 0 {
        None
    } else {
        match spec_u16_digits(0, digits) {
            None => None,
            Some(v) => Some(v as u16),
        }
    }
}

/// Parses a 16-bit decimal numeral: an optional leading plus sign, then
/// digits. Fails on empty input, a non-digit, or overflow.
pub fn parse_u16(s: &str) -> (r: Option<u16>)
    ensures
        r == spec_parse_u16(s@),
{
    let n = s.unicode_len();
    let mut i: usize = 0;
    if n > 0 && s.get_char(0) == '+' {
        i = 1;
    }
    let ghost digits = if s@.len() > 0 && s@[0] == '+' { s@.skip(1) } else { s@ };
    if i >= n {
        return None;
    }
    let mut acc: u32 = 0;
    let start = i;
    proof {
        if start == 1 {
            assert(digits =~= s@.skip(1));
        } else {
            assert(digits =~= s@.skip(0));
        }
        assert(digits.skip(0) =~= digits);
    }
    while i < n
        invariant
            start <= i <= n,
            n == s@.len(),
            start == (if s@.len() > 0 && s@[0] == '+' { 1int } else { 0int }),
            digits == (if s@.len() > 0 && s@[0] == '+' { s@.skip(1) } else { s@ }),
            digits == s@.skip(start as int),
            digits.len() == n - start,
            acc <= 65535,
            spec_u16_digits(0, digits) == spec_u16_digits(acc as int, digits.skip(i - start as int)),
        decreases n - i,
    {
        let ghost rest = digits.skip(i - start as int);
        proof {
            assert(rest[0] == s@[i as int]);
            assert(rest.skip(1) =~= digits.skip(i + 1 - start as int));
        }
        let c = s.get_char(i);
        let v = c as u32;
        if !(48 <= v && v <= 57) {
            proof {
                assert(spec_digit(rest[0]) is None);
                assert(spec_u16_digits(acc as int, rest) is None);
                assert(spec_u16_digits(0, digits) is None);
                assert(digits.len() > 0);
                assert(spec_parse_u16(s@) is None);
            }
            return None;
        }
        let d = v - 48;
        if acc > 6553 || (acc == 6553 && d > 5) {
            proof {
                assert(spec_digit(rest[0]) == Some(d as int));
                assert(acc * 10 + d > 65535);
                assert(spec_u16_digits(acc as int, rest) is None);
            }
            return None;
        }
        proof {
            assert(spec_digit(rest[0]) == Some(d as int));
        }
        acc = acc * 10 + d;
        i = i + 1;
    }
    proof {
        assert(digits.skip(n - start as int) =~= Seq::<char>::empty());
    }
    Some(acc as u16)
}

/// The text "0".
pub(crate) fn zero_str() -> (r: &'static str)
    ensures
        r@ == seq!['0'],
{
    proof {
        reveal_strlit("0");
        assert("0"@ =~= seq!['0']);
    }
    "0"
}

/// The text "-".
pub(crate) fn hyphen_str() -> (r: &'static str)
    ensures
        r@ == seq!['-'],
{
    proof {
        reveal_strlit("-");
        assert("-"@ =~= seq!['-']);
    }
    "-"
}

/// The text "+".
pub(crate) fn plus_str() -> (r: &'static str)
    ensures
        r@ == seq!['+'],
{
    proof {
        reveal_strlit("+");
        assert("+"@ =~= seq!['+']);
    }
    "+"
}

/// The decimal numeral for a non-negative integer, most significant digit
/// first.
pub open spec fn spec_dec_text(n: int) -> Seq<char>
    recommends
        n >= 0,
    decreases n,
{
    if n < 10 {
        seq![crate::hash_value::spec_nibble_char(n)]
    } else {
        spec_dec_text(n / 10) + seq![crate::hash_value::spec_nibble_char(n % 10)]
    }
}

/// Renders a 32-bit number as a decimal numeral.
pub fn u32_text(n: u32) -> (r: String)
    ensures
        r@ == spec_dec_text(n as int),
    decreases n,
{
    if n < 10 {
        crate::hash_value::hex_digit_str(n as u8).to_owned()
    } else {
        let mut s = u32_text(n / 10);
        s.append(crate::hash_value::hex_digit_str((n % 10) as u8));
        s
    }
}

} // verus!
