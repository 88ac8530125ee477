//! Digest values: immutable byte sequences with a canonical lowercase-hex
//! text form, ordered byte-wise.

use vstd::prelude::*;
use vstd::slice::slice_to_vec;
use vstd::string::StrSliceExecFns;
use vstd::string::StringExecFns;

verus! {

/// Errors from reading a digest out of hexadecimal text.
#[derive(Clone, Copy, Debug, PartialEq, Eq, Structural)]
pub enum ParseError {
    /// An input character was not a hexadecimal digit. The payload is the
    /// character truncated to a byte.
    InvalidByte(u8),
    /// The text had an odd number of digits, so it does not encode a whole
    /// number of bytes.
    NotOctetSized,
}

/// A dynamically sized digest used to represent source-control revisions and
/// artifact checksums. Equality and ordering are byte-wise; the canonical
/// text form is lowercase hexadecimal, two digits per byte.
#[derive(Default, Debug, Eq, Hash, Ord, PartialEq, PartialOrd)]
pub struct HashValue {
    bytes: Vec<u8>,
}

impl View for HashValue {
    type V = Seq<u8>;

    closed spec fn view(&self) -> Seq<u8> {
        self.bytes@
    }
}

impl DeepView for HashValue {
    type V = Seq<u8>;

    open spec fn deep_view(&self) -> Seq<u8> {
        self.view()
    }
}

impl Clone for HashValue {
    fn clone(&self) -> (r: Self)
        ensures
            r@ == self@,
    {
        HashValue { bytes: slice_to_vec(self.bytes.as_slice()) }
    }
}

/// The ASCII code of the lowercase hexadecimal digit for a nibble.
pub open spec fn spec_nibble_ascii(n: int) -> u8
    recommends
        0 <= n < 16,
{
    if n < 10 {
        (48 + n) as u8  // '0' + n
    } else {
        (87 + n) as u8  // 'a' + (n - 10)
    }
}

/// The lowercase hexadecimal digit character for a nibble.
pub open spec fn spec_nibble_char(n: int) -> char
    recommends
        0 <= n < 16,
{
    if n == 0 { '0' } else if n == 1 { '1' } else if n == 2 { '2' }
    else if n == 3 { '3' } else if n == 4 { '4' } else if n == 5 { '5' }
    else if n == 6 { '6' } else if n == 7 { '7' } else if n == 8 { '8' }
    else if n == 9 { '9' } else if n == 10 { 'a' } else if n == 11 { 'b' }
    else if n == 12 { 'c' } else if n == 13 { 'd' } else if n == 14 { 'e' }
    else { 'f' }
}

/// The value of a hexadecimal digit character, or `None` if the character is
/// not a hexadecimal digit. Uppercase and lowercase digits are accepted.
pub open spec fn spec_hex_val(c: char) -> Option<u8> {
    let v = c as u32;
    if '0' as u32 <= v && v <= '9' as u32 {
        Some((v - '0' as u32) as u8)
    } else if 'a' as u32 <= v && v <= 'f' as u32 {
        Some((10 + v - 'a' as u32) as u8)
    } else if 'A' as u32 <= v && v <= 'F' as u32 {
        Some((10 + v - 'A' as u32) as u8)
    } else {
        None
    }
}

/// The value of an ASCII hexadecimal digit byte, or `None` if the byte is
/// not one. Uppercase and lowercase digits are accepted.
pub open spec fn spec_ascii_val(c: u8) -> Option<u8> {
    if 48 <= c && c <= 57 {
        Some((c - 48) as u8)  // '0'..='9'
    } else if 97 <= c && c <= 102 {
        Some((c - 97 + 10) as u8)  // 'a'..='f'
    } else if 65 <= c && c <= 70 {
        Some((c - 65 + 10) as u8)  // 'A'..='F'
    } else {
        None
    }
}

/// The ASCII bytes of the canonical hexadecimal form of a byte sequence.
pub open spec fn spec_to_ascii(b: Seq<u8>) -> Seq<u8>
    decreases b.len(),
{
    if b.len() == 0 {
        Seq::empty()
    } else {
        seq![
            spec_nibble_ascii(b[0] as int / 16),
            spec_nibble_ascii(b[0] as int % 16),
        ] + spec_to_ascii(b.skip(1))
    }
}

/// The characters of the canonical hexadecimal form of a byte sequence.
pub open spec fn spec_to_hex_text(b: Seq<u8>) -> Seq<char>
    decreases b.len(),
{
    if b.len() == 0 {
        Seq::empty()
    } else {
        seq![
            spec_nibble_char(b[0] as int / 16),
            spec_nibble_char(b[0] as int % 16),
        ] + spec_to_hex_text(b.skip(1))
    }
}

/// Reads bytes from an even-length sequence of hexadecimal digit characters.
/// The first character that is not a hexadecimal digit is reported as
/// `InvalidByte`, scanning left to right.
pub open spec fn spec_hex_bytes(s: Seq<char>) -> Result<Seq<u8>, ParseError>
    recommends
        s.len() % 2 == 0,
    decreases s.len(),
{
    if s.len() < 2 {
        Ok(Seq::empty())
    } else {
        match spec_hex_val(s[0]) {
            None => Err(ParseError::InvalidByte(s[0] as u8)),
            Some(hi) => match spec_hex_val(s[1]) {
                None => Err(ParseError::InvalidByte(s[1] as u8)),
                Some(lo) => match spec_hex_bytes(s.skip(2)) {
                    Err(e) => Err(e),
                    Ok(rest) => Ok(seq![(hi * 16 + lo) as u8] + rest),
                },
            },
        }
    }
}

/// What parsing hexadecimal text yields: the bytes it encodes, or the first
/// error. Odd-length input is rejected before any character is examined.
pub open spec fn spec_parse_hex(s: Seq<char>) -> Result<Seq<u8>, ParseError> {
    if s.len() % 2 == 0 {
        spec_hex_bytes(s)
    } else {
        Err(ParseError::NotOctetSized)
    }
}

impl HashValue {
    /// The ASCII code of the lowercase hexadecimal digit for a nibble.
    pub fn nibble_to_ascii(c: u8) -> (r: u8)
        requires
            c < 16,
        ensures
            r == spec_nibble_ascii(c as int),
    {
        if c < 10 {
            48 + c
        } else {
            87 + c
        }
    }

    /// The value of an ASCII hexadecimal digit, or `InvalidByte` if the byte
    /// is not one.
    pub fn ascii_to_nibble(c: u8) -> (r: Result<u8, ParseError>)
        ensures
            spec_ascii_val(c) matches Some(n) ==> r == Ok::<u8, ParseError>(n),
            spec_ascii_val(c) is None ==> r == Err::<u8, ParseError>(ParseError::InvalidByte(c)),
    {
        if 48 <= c && c <= 57 {
            Ok(c - 48)  // '0'..='9'
        } else if 97 <= c && c <= 102 {
            Ok(c - 97 + 10)  // 'a'..='f'
        } else if 65 <= c && c <= 70 {
            Ok(c - 65 + 10)  // 'A'..='F'
        } else {
            Err(ParseError::InvalidByte(c))
        }
    }

    /// Returns the value as ASCII characters.
    pub fn to_ascii(&self) -> (r: Vec<u8>)
        ensures
            r@ == spec_to_ascii(self@),
    {
        let mut characters: Vec<u8> = Vec::new();
        let n = self.bytes.len();
        proof {
            assert(self@.skip(0) =~= self@);
            assert(characters@ + spec_to_ascii(self@) =~= spec_to_ascii(self@));
        }
        for idx in 0..n
            invariant
                n == self@.len(),
                spec_to_ascii(self@) == characters@ + spec_to_ascii(self@.skip(idx as int)),
        {
            let byte = self.bytes[idx];
            let high = byte / 16;
            let low = byte % 16;
            characters.push(Self::nibble_to_ascii(high));
            characters.push(Self::nibble_to_ascii(low));
            proof {
                let rest = self@.skip(idx as int);
                assert(rest[0] == self@[idx as int]);
                assert(rest.skip(1) =~= self@.skip(idx as int + 1));
                assert(characters@ + spec_to_ascii(self@.skip(idx as int + 1))
                    =~= spec_to_ascii(self@));
            }
        }
        proof {
            assert(self@.skip(n as int) =~= Seq::<u8>::empty());
            assert(characters@ + spec_to_ascii(self@.skip(n as int)) =~= characters@);
        }
        characters
    }

    /// Converts from binary (not ASCII).
    pub fn from_bytes(bytes: &[u8]) -> (r: HashValue)
        ensures
            r@ == bytes@,
    {
        HashValue { bytes: slice_to_vec(bytes) }
    }

    /// The bytes of the digest.
    pub fn as_bytes(&self) -> (r: &[u8])
        ensures
            r@ == self@,
    {
        self.bytes.as_slice()
    }

    /// The canonical text form: lowercase hexadecimal, two digits per byte.
    pub fn to_text(&self) -> (r: String)
        ensures
            r@ == spec_to_hex_text(self@),
    {
        let mut s = String::new();
        let n = self.bytes.len();
        proof {
            assert(self@.skip(0) =~= self@);
            assert(s@ + spec_to_hex_text(self@) =~= spec_to_hex_text(self@));
        }
        for idx in 0..n
            invariant
                n == self@.len(),
                spec_to_hex_text(self@) == s@ + spec_to_hex_text(self@.skip(idx as int)),
        {
            let byte = self.bytes[idx];
            let ghost prev = s@;
            s.append(hex_digit_str(byte / 16));
            s.append(hex_digit_str(byte % 16));
            proof {
                let rest = self@.skip(idx as int);
                assert(rest[0] == self@[idx as int]);
                assert(rest.skip(1) =~= self@.skip(idx as int + 1));
                assert(s@ + spec_to_hex_text(self@.skip(idx as int + 1))
                    =~= prev + spec_to_hex_text(self@.skip(idx as int)));
            }
        }
        proof {
            assert(self@.skip(n as int) =~= Seq::<u8>::empty());
            assert(s@ + spec_to_hex_text(self@.skip(n as int)) =~= s@);
        }
        s
    }

    /// Parses the hexadecimal text form of a digest. Fails with
    /// `NotOctetSized` on odd-length input, and with `InvalidByte` on the
    /// first character that is not a hexadecimal digit.
    pub fn parse_hex(s: &str) -> (r: Result<HashValue, ParseError>)
        ensures
            ({
                match spec_parse_hex(s@) {
                    Ok(b) => r matches Ok(h) && h@ == b,
                    Err(e) => r matches Err(e2) && e2 == e,
                }
            }),
    {
        let length = s.unicode_len();
        if length % 2 != 0 {
            return Err(ParseError::NotOctetSized);
        }
        let mut bytes: Vec<u8> = Vec::new();
        let half = length / 2;
        proof {
            assert(s@.skip(0) =~= s@);
            assert(bytes@ + spec_hex_bytes(s@)->Ok_0 =~= spec_hex_bytes(s@)->Ok_0);
        }
        for idx in 0..half
            invariant
                s@.len() == length,
                length % 2 == 0,
                half == length / 2,
                spec_hex_bytes(s@) == (match spec_hex_bytes(s@.skip(2 * idx as int)) {
                    Err(e) => Err::<Seq<u8>, ParseError>(e),
                    Ok(rest) => Ok::<Seq<u8>, ParseError>(bytes@ + rest),
                }),
        {
            let c1 = s.get_char(2 * idx);
            let c2 = s.get_char(2 * idx + 1);
            let ghost rest = s@.skip(2 * idx as int);
            proof {
                assert(rest[0] == s@[2 * idx as int]);
                assert(rest[1] == s@[2 * idx as int + 1]);
                assert(rest.skip(2) =~= s@.skip(2 * idx as int + 2));
            }
            let hi = match hex_char_val(c1) {
                Some(v) => v,
                None => {
                    return Err(ParseError::InvalidByte(char_to_byte(c1)));
                },
            };
            let lo = match hex_char_val(c2) {
                Some(v) => v,
                None => {
                    return Err(ParseError::InvalidByte(char_to_byte(c2)));
                },
            };
            let ghost prev = bytes@;
            bytes.push(hi * 16 + lo);
            proof {
                assert(bytes@ + spec_hex_bytes(s@.skip(2 * idx as int + 2))->Ok_0
                    =~= prev + (seq![(hi * 16 + lo) as u8]
                        + spec_hex_bytes(s@.skip(2 * idx as int + 2))->Ok_0));
            }
        }
        proof {
            assert(s@.skip(2 * half as int) =~= Seq::<char>::empty());
            assert(bytes@ + Seq::<u8>::empty() =~= bytes@);
        }
        Ok(HashValue { bytes })
    }

    /// Byte-wise lexicographic comparison: true when `self` orders strictly
    /// before `other`.
    pub fn less_than(&self, other: &HashValue) -> (r: bool)
        ensures
            r == spec_bytes_lt(self@, other@),
    {
        let mut i: usize = 0;
        proof {
            assert(self@.skip(0) =~= self@);
            assert(other@.skip(0) =~= other@);
        }
        while i < self.bytes.len() && i < other.bytes.len()
            invariant
                i <= self@.len(),
                i <= other@.len(),
                spec_bytes_lt(self@, other@)
                    == spec_bytes_lt(self@.skip(i as int), other@.skip(i as int)),
            decreases self@.len() - i,
        {
            let a = self.bytes[i];
            let b = other.bytes[i];
            proof {
                assert(self@.skip(i as int)[0] == self@[i as int]);
                assert(other@.skip(i as int)[0] == other@[i as int]);
                assert(self@.skip(i as int).skip(1) =~= self@.skip(i as int + 1));
                assert(other@.skip(i as int).skip(1) =~= other@.skip(i as int + 1));
            }
            if a < b {
                return true;
            }
            if a > b {
                return false;
            }
            i = i + 1;
        }
        i < other.bytes.len()
    }
}

/// The lowercase hexadecimal digit for a nibble, as text.
pub(crate) fn hex_digit_str(n: u8) -> (r: &'static str)
    requires
        n < 16,
    ensures
        r@ == seq![spec_nibble_char(n as int)],
{
    let r: &'static str = match n {
        0 => "0",
        1 => "1",
        2 => "2",
        3 => "3",
        4 => "4",
        5 => "5",
        6 => "6",
        7 => "7",
        8 => "8",
        9 => "9",
        10 => "a",
        11 => "b",
        12 => "c",
        13 => "d",
        14 => "e",
        _ => "f",
    };
    proof {
        reveal_strlit("0");
        reveal_strlit("1");
        reveal_strlit("2");
        reveal_strlit("3");
        reveal_strlit("4");
        reveal_strlit("5");
        reveal_strlit("6");
        reveal_strlit("7");
        reveal_strlit("8");
        reveal_strlit("9");
        reveal_strlit("a");
        reveal_strlit("b");
        reveal_strlit("c");
        reveal_strlit("d");
        reveal_strlit("e");
        reveal_strlit("f");
        assert(r@ =~= seq![spec_nibble_char(n as int)]);
    }
    r
}

/// The value of a hexadecimal digit character, if it is one.
fn hex_char_val(c: char) -> (r: Option<u8>)
    ensures
        r == spec_hex_val(c),
{
    let v = c as u32;
    if 48 <= v && v <= 57 {
        Some((v - 48) as u8)
    } else if 97 <= v && v <= 102 {
        Some((v - 97 + 10) as u8)
    } else if 65 <= v && v <= 70 {
        Some((v - 65 + 10) as u8)
    } else {
        None
    }
}

/// A character truncated to its low byte, as the error payload of
/// `InvalidByte` reports it.
fn char_to_byte(c: char) -> (r: u8)
    ensures
        r == c as u8,
{
    let v = c as u32;
    #[verifier::truncate]
    let b = v as u8;
    b
}

/// Byte-wise lexicographic order on byte sequences: the order digests are
/// compared in.
pub open spec fn spec_bytes_lt(a: Seq<u8>, b: Seq<u8>) -> bool
    decreases a.len(),
{
    if b.len() == 0 {
        false
    } else if a.len() == 0 {
        true
    } else if a[0] < b[0] {
        true
    } else if a[0] > b[0] {
        false
    } else {
        spec_bytes_lt(a.skip(1), b.skip(1))
    }
}

/// The length of the canonical text form: two characters per byte.
pub proof fn lemma_to_hex_text_len(b: Seq<u8>)
    ensures
        spec_to_hex_text(b).len() == 2 * b.len(),
    decreases b.len(),
{
    if b.len() > 0 {
        lemma_to_hex_text_len(b.skip(1));
    }
}

/// Round trip: the canonical text form of any digest byte sequence parses
/// back to exactly those bytes.
pub proof fn lemma_hex_round_trip(b: Seq<u8>)
    ensures
        spec_parse_hex(spec_to_hex_text(b)) == Ok::<Seq<u8>, ParseError>(b),
    decreases b.len(),
{
    lemma_to_hex_text_len(b);
    if b.len() == 0 {
        assert(spec_to_hex_text(b) =~= Seq::<char>::empty());
        assert(b =~= Seq::<u8>::empty());
    } else {
        let s = spec_to_hex_text(b);
        let hi = b[0] as int / 16;
        let lo = b[0] as int % 16;
        lemma_hex_round_trip(b.skip(1));
        lemma_to_hex_text_len(b.skip(1));
        assert(s[0] == spec_nibble_char(hi));
        assert(s[1] == spec_nibble_char(lo));
        assert(s.skip(2) =~= spec_to_hex_text(b.skip(1)));
        assert(spec_hex_val(spec_nibble_char(hi)) == Some(hi as u8));
        assert(spec_hex_val(spec_nibble_char(lo)) == Some(lo as u8));
        assert((hi * 16 + lo) as u8 == b[0]);
        assert(seq![b[0]] + b.skip(1) =~= b);
    }
}

} // verus!
