//! Calendar months and the half-open window of one month.
use vstd::prelude::*;

verus! {

#[verifier::external_type_specification]
#[verifier::external_body]
pub struct ExNaiveDate(chrono::NaiveDate);

/// Relies on chrono's `Datelike::year` for `NaiveDate`: the date's calendar year.
#[verifier::external_body]
fn date_year(d: &chrono::NaiveDate) -> (r: i32) {
    chrono::Datelike::year(d)
}

/// Relies on chrono's `Datelike::month` for `NaiveDate`: the month number,
/// documented to range from 1 to 12.
#[verifier::external_body]
fn date_month(d: &chrono::NaiveDate) -> (r: u32)
    ensures
        1 <= r <= 12,
{
    chrono::Datelike::month(d)
}

/// A calendar month: a year and a month number from 1 to 12.
#[derive(Clone, Copy, Debug, PartialEq, Eq, Structural)]
pub struct YearMonth {
    pub year: i32,
    pub month: u32,
}

impl YearMonth {
    pub open spec fn wf(self) -> bool {
        1 <= self.month <= 12
    }

    /// The month's place on a single line of months, for ordering.
    pub open spec fn ordinal(self) -> int {
        self.year as int * 12 + self.month as int
    }

    /// `self` comes strictly before `other` (year first, then month).
    pub open spec fn before(self, other: YearMonth) -> bool {
        self.year < other.year || (self.year == other.year && self.month < other.month)
    }

    /// The calendar month in which the date `d` falls.
    pub fn of_date(d: &chrono::NaiveDate) -> (r: YearMonth)
        ensures
            r.wf(),
    {
        YearMonth { year: date_year(d), month: date_month(d) }
    }

    /// Compares year first, then month.
    pub fn is_before(&self, other: &YearMonth) -> (r: bool)
        ensures
            r == self.before(*other),
    {
        self.year < other.year || (self.year == other.year && self.month < other.month)
    }

}

/// `s` without its `-` characters.
pub open spec fn strip_hyphens(s: Seq<char>) -> Seq<char>
    decreases s.len(),
{
    if s.len() == 0 {
        s
    } else if s.last() == '-' {
        strip_hyphens(s.drop_last())
    } else {
        strip_hyphens(s.drop_last()).push(s.last())
    }
}

/// The key of a month argument such as `2024-03`: its characters with the
/// hyphens removed (`202403`).
pub fn month_key(month: &str) -> (r: String)
    ensures
        r@ == strip_hyphens(month@),
{
    let n = month.unicode_len();
    let mut out = String::new();
    let mut i: usize = 0;
    while i < n
        invariant
            i <= n,
            n == month@.len(),
            out@ == strip_hyphens(month@.subrange(0, i as int)),
        decreases n - i,
    {
        let c = month.substring_char(i, i + 1);
        assert(month@.subrange(0, i + 1).drop_last() =~= month@.subrange(0, i as int));
        if month.get_char(i) != '-' {
            let ghost before = out@;
            out.append(c);
            assert(out@ =~= before.push(month@[i as int]));
        }
        i = i + 1;
    }
    assert(month@.subrange(0, n as int) =~= month@);
    out
}

/// The cache file of a month argument: its key followed by `.json`.
pub fn cache_file_name(month: &str) -> (r: String)
    ensures
        r@ == strip_hyphens(month@) + ".json"@,
{
    month_key(month).concat(".json")
}

/// The half-open window `[start, end)` of one calendar month. `end` is the
/// month after `start`, written with the same year and a month number one
/// higher (so December is followed by month 13 of the same year); under the
/// year-then-month order every later month still compares at or after it.
#[derive(Clone, Copy, Debug, PartialEq, Eq, Structural)]
pub struct Window {
    pub start: YearMonth,
    pub end: YearMonth,
}

impl Window {
    pub open spec fn wf(self) -> bool {
        self.start.wf() && self.end.year == self.start.year && self.end.month
            == self.start.month + 1
    }

    /// The window of the given month.
    pub fn of_month(m: YearMonth) -> (r: Window)
        requires
            m.wf(),
        ensures
            r.wf(),
            r.start == m,
    {
        Window { start: m, end: YearMonth { year: m.year, month: m.month + 1 } }
    }

    pub open spec fn contains_spec(self, m: YearMonth) -> bool {
        !m.before(self.start) && m.before(self.end)
    }

    /// Whether `m` lies in `[start, end)`.
    pub fn contains(&self, m: &YearMonth) -> (r: bool)
        ensures
            r == self.contains_spec(*m),
    {
        !m.is_before(&self.start) && m.is_before(&self.end)
    }
}

} // verus!
