//! Calendar dates held as plain year, month and day numbers, read from and
//! rendered to ISO `year-month-day` text.

use crate::text::hyphen_str;
use crate::text::plus_str;
use crate::text::spec_dec_text;
use crate::text::zero_str;
use crate::text::u32_text;
use core::str::FromStr;
use vstd::prelude::*;
use vstd::string::StrSliceExecFns;
use vstd::string::StringExecFns;

verus! {

/// A calendar date as plain numbers. Values come from parsing manifest or
/// toolchain text, so they always name a real calendar day.
#[derive(Clone, Copy, Debug, PartialEq, Eq, Structural)]
pub struct ToolDate {
    /// The year, possibly negative (proleptic Gregorian).
    pub year: i32,
    /// The month, 1 to 12.
    pub month: u8,
    /// The day of the month, 1 to 31.
    pub day: u8,
}

impl DeepView for ToolDate {
    type V = ToolDate;

    open spec fn deep_view(&self) -> ToolDate {
        *self
    }
}

/// What chrono reads out of ISO `year-month-day` text: `None` where the text
/// is not such a date, otherwise the (year, month, day) numbers.
pub uninterp spec fn spec_date_parse(s: Seq<char>) -> Option<(int, int, int)>;

/// Relies on chrono's `NaiveDate::from_str` to recognize `year-month-day`
/// text and to admit only real calendar days; the result depends on the text
/// alone. The year bound is chrono's own representation limit.
#[verifier::external_body]
pub fn parse_date(s: &str) -> (r: Option<ToolDate>)
    ensures
        r is Some <==> spec_date_parse(s@) is Some,
        r matches Some(d) ==> spec_date_parse(s@) == Some(
            (d.year as int, d.month as int, d.day as int),
        ),
        r matches Some(d) ==> 1 <= d.month <= 12 && 1 <= d.day <= 31,
        r matches Some(d) ==> -262144 <= d.year <= 262143,
{
    match chrono::NaiveDate::from_str(s) {
        Ok(d) => Some(
            ToolDate {
                year: chrono::Datelike::year(&d),
                month: chrono::Datelike::month(&d) as u8,
                day: chrono::Datelike::day(&d) as u8,
            },
        ),
        Err(_) => None,
    }
}

/// A decimal numeral zero-padded to at least two digits.
pub open spec fn spec_pad2(n: int) -> Seq<char>
    recommends
        n >= 0,
{
    if n >= 10 {
        spec_dec_text(n)
    } else {
        seq!['0'] + spec_dec_text(n)
    }
}

/// A decimal numeral zero-padded to at least four digits.
pub open spec fn spec_pad4(n: int) -> Seq<char>
    recommends
        n >= 0,
{
    if n >= 1000 {
        spec_dec_text(n)
    } else if n >= 100 {
        seq!['0'] + spec_dec_text(n)
    } else if n >= 10 {
        seq!['0', '0'] + spec_dec_text(n)
    } else {
        seq!['0', '0', '0'] + spec_dec_text(n)
    }
}

/// The text of a year: four zero-padded digits, a leading minus for
/// negative years, a leading plus beyond four digits.
pub open spec fn spec_year_text(y: int) -> Seq<char> {
    if y < 0 {
        seq!['-'] + spec_pad4(-y)
    } else if y > 9999 {
        seq!['+'] + spec_dec_text(y)
    } else {
        spec_pad4(y)
    }
}

/// The ISO text of a date: year, month and day separated by hyphens, the
/// month and day zero-padded to two digits.
pub open spec fn spec_date_text(d: ToolDate) -> Seq<char> {
    spec_year_text(d.year as int) + seq!['-'] + spec_pad2(d.month as int) + seq!['-'] + spec_pad2(
        d.day as int,
    )
}

/// Renders a number zero-padded to at least two digits.
fn pad2(n: u32) -> (r: String)
    ensures
        r@ == spec_pad2(n as int),
{
    if n >= 10 {
        u32_text(n)
    } else {
        let mut s = zero_str().to_owned();
        s.append(u32_text(n).as_str());
        proof {
            reveal_strlit("0");
            assert(s@ =~= spec_pad2(n as int));
        }
        s
    }
}

/// Renders a number zero-padded to at least four digits.
fn pad4(n: u32) -> (r: String)
    ensures
        r@ == spec_pad4(n as int),
{
    if n >= 1000 {
        u32_text(n)
    } else {
        let mut s = String::new();
        if n >= 100 {
            s.append(zero_str());
        } else if n >= 10 {
            s.append(zero_str());
            s.append(zero_str());
        } else {
            s.append(zero_str());
            s.append(zero_str());
            s.append(zero_str());
        }
        s.append(u32_text(n).as_str());
        proof {
            reveal_strlit("0");
            assert(s@ =~= spec_pad4(n as int));
        }
        s
    }
}

impl ToolDate {
    /// The ISO text of the date, as `spec_date_text` gives it.
    pub fn to_text(&self) -> (r: String)
        ensures
            r@ == spec_date_text(*self),
    {
        let mut s = year_text(self.year);
        s.append(hyphen_str());
        s.append(pad2(self.month as u32).as_str());
        s.append(hyphen_str());
        s.append(pad2(self.day as u32).as_str());
        proof {
            assert(s@ =~= spec_date_text(*self));
        }
        s
    }
}

/// Renders a year as `spec_year_text` gives it.
fn year_text(y: i32) -> (r: String)
    ensures
        r@ == spec_year_text(y as int),
{
    if y < 0 {
        let mag64: i64 = -(y as i64);
        let mag: u32 = mag64 as u32;
        let mut s = hyphen_str().to_owned();
        s.append(pad4(mag).as_str());
        proof {
            assert(s@ =~= spec_year_text(y as int));
        }
        s
    } else if y > 9999 {
        let mut s = plus_str().to_owned();
        s.append(u32_text(y as u32).as_str());
        proof {
            assert(s@ =~= spec_year_text(y as int));
        }
        s
    } else {
        pad4(y as u32)
    }
}

} // verus!
