//! Calendar dates of the proleptic Gregorian calendar, as plain year, month
//! and day, with the day arithmetic that ages are computed from.

use chrono::Datelike;
use vstd::prelude::*;

verus! {

/// Earliest year that chrono represents.
pub const MIN_YEAR: i32 = -262143;

/// Latest year that chrono represents.
pub const MAX_YEAR: i32 = 262142;

pub open spec fn is_leap_year(y: int) -> bool {
    y % 4 == 0 && (y % 100 != 0 || y % 400 == 0)
}

pub open spec fn days_in_month(y: int, m: int) -> int {
    if m == 2 {
        if is_leap_year(y) { 29 } else { 28 }
    } else if m == 4 || m == 6 || m == 9 || m == 11 {
        30
    } else {
        31
    }
}

/// `(y, m, d)` names a day that exists and lies in chrono's range.
pub open spec fn valid_ymd(y: int, m: int, d: int) -> bool {
    &&& MIN_YEAR <= y <= MAX_YEAR
    &&& 1 <= m <= 12
    &&& 1 <= d <= days_in_month(y, m)
}

/// Number of days from 1970-01-01 to the given day (negative before it).
pub open spec fn day_number(y: int, m: int, d: int) -> int {
    let y1 = if m <= 2 { y - 1 } else { y };
    let era = y1 / 400;
    let yoe = y1 - era * 400;
    let mp = if m > 2 { m - 3 } else { m + 9 };
    let doy = (153 * mp + 2) / 5 + d - 1;
    let doe = yoe * 365 + yoe / 4 - yoe / 100 + doy;
    era * 146097 + doe - 719468
}

pub open spec fn digit_char(n: nat) -> char
    recommends
        n < 10,
{
    (n + 48) as char
}

/// Decimal digits of `n`, without leading zeros.
pub open spec fn decimal(n: nat) -> Seq<char>
    decreases n,
{
    if n < 10 {
        seq![digit_char(n)]
    } else {
        decimal(n / 10).push(digit_char(n % 10))
    }
}

/// Decimal digits of `n`, with zeros in front up to `width` characters.
pub open spec fn zero_padded(n: nat, width: nat) -> Seq<char> {
    let ds = decimal(n);
    if ds.len() < width {
        Seq::new((width - ds.len()) as nat, |i: int| '0') + ds
    } else {
        ds
    }
}

/// The year as `%Y` writes it: four digits for years 0 to 9999, otherwise a
/// sign and at least four digits.
pub open spec fn year_text(y: int) -> Seq<char> {
    if 0 <= y <= 9999 {
        zero_padded(y as nat, 4)
    } else if y < 0 {
        seq!['-'] + zero_padded((-y) as nat, 4)
    } else {
        seq!['+'] + zero_padded(y as nat, 4)
    }
}

/// The text of a date in the `YYYY-MM-DD` form.
pub open spec fn date_text(y: int, m: int, d: int) -> Seq<char> {
    year_text(y) + seq!['-'] + zero_padded(m as nat, 2) + seq!['-'] + zero_padded(d as nat, 2)
}

/// What chrono's `%Y-%m-%d` parser makes of a text: the year, month and day it
/// reads, or `None` where it refuses the text.
pub uninterp spec fn date_parse(s: Seq<char>) -> Option<(int, int, int)>;

/// The year, month and day that chrono's `%Y-%m-%d` parser reads from a
/// text: the text that `Date::text` gives for a day that exists is read
/// back as that day; any other text as `date_parse` says.
pub open spec fn read_date(s: Seq<char>) -> Option<(int, int, int)> {
    if exists|d: Date| d.wf() && #[trigger] d.text() == s {
        Some((choose|d: Date| d.wf() && #[trigger] d.text() == s)@)
    } else {
        date_parse(s)
    }
}

/// Day number of 1969-12-31, the earliest local date that a clock at or
/// after the Unix epoch shows in any time zone.
pub open spec fn earliest_today() -> int {
    day_number(1969, 12, 31)
}

/// A calendar day.
#[derive(Clone, Copy, Debug, PartialEq, Eq, Hash)]
pub struct Date {
    pub year: i32,
    pub month: u32,
    pub day: u32,
}

impl View for Date {
    type V = (int, int, int);

    open spec fn view(&self) -> (int, int, int) {
        (self.year as int, self.month as int, self.day as int)
    }
}

impl Date {
    /// The date names a day that exists.
    pub open spec fn wf(&self) -> bool {
        valid_ymd(self.year as int, self.month as int, self.day as int)
    }

    pub open spec fn days(&self) -> int {
        day_number(self.year as int, self.month as int, self.day as int)
    }

    pub open spec fn text(&self) -> Seq<char> {
        date_text(self.year as int, self.month as int, self.day as int)
    }

    /// The date `year-month-day`, where that day exists.
    pub fn from_ymd(year: i32, month: u32, day: u32) -> (r: Option<Date>)
        ensures
            r is Some <==> valid_ymd(year as int, month as int, day as int),
            r is Some ==> r->0 == (Date { year, month, day }),
    {
        if ymd_exists(year, month, day) {
            Some(Date { year, month, day })
        } else {
            None
        }
    }

    /// 1900-01-01, the date given to a record whose birth date is unknown.
    pub open spec fn unknown_birth_date_spec() -> Date {
        Date { year: 1900, month: 1, day: 1 }
    }

    /// 1900-01-01, the date given to a record whose birth date is unknown.
    pub fn unknown_birth_date() -> (r: Date)
        ensures
            r == Date::unknown_birth_date_spec(),
            r.wf(),
    {
        Date { year: 1900, month: 1, day: 1 }
    }

    /// The date written as `YYYY-MM-DD` (with a sign before years outside
    /// 0 to 9999).
    pub fn to_text(&self) -> (r: String)
        requires
            self.wf(),
        ensures
            r@ == self.text(),
    {
        format_ymd(self)
    }

    /// Reads a date written in the `YYYY-MM-DD` form.
    pub fn parse(s: &str) -> (r: Option<Date>)
        ensures
            r is Some <==> read_date(s@) is Some,
            r is Some ==> r->0.wf() && r->0@ == read_date(s@)->0,
            forall|d: Date| d.wf() && s@ == #[trigger] d.text() ==> r == Some(d),
    {
        let r = parse_ymd(s);
        proof {
            assert forall|d: Date| d.wf() && s@ == #[trigger] d.text() implies r == Some(d) by {
                let c = choose|c: Date| c.wf() && #[trigger] c.text() == s@;
                lemma_text_injective(c, d);
            }
        }
        r
    }

    /// Today's date by the local clock: 1969-12-31 or later. Panics where
    /// the system clock reads a time before 1970.
    pub fn today() -> (r: Date)
        ensures
            r.wf(),
            r.days() >= earliest_today(),
    {
        local_today()
    }

    /// Whole days from `earlier` to `self` (negative when `self` comes first).
    pub fn days_since(&self, earlier: &Date) -> (r: i64)
        requires
            self.wf(),
            earlier.wf(),
        ensures
            r == self.days() - earlier.days(),
    {
        signed_days_between(self, earlier)
    }
}

/// Relies on chrono's `NaiveDate::from_ymd_opt`: `Some` exactly for a day
/// that exists in a year from `MIN_YEAR` to `MAX_YEAR`.
#[verifier::external_body]
fn ymd_exists(year: i32, month: u32, day: u32) -> (r: bool)
    ensures
        r == valid_ymd(year as int, month as int, day as int),
{
    chrono::NaiveDate::from_ymd_opt(year, month, day).is_some()
}

/// Relies on chrono's `NaiveDate::format` with `%Y-%m-%d`: `%Y` writes four
/// zero-padded digits for years 0 to 9999 and a sign and at least four digits
/// for the others; `%m` and `%d` write two zero-padded digits.
#[verifier::external_body]
fn format_ymd(d: &Date) -> (r: String)
    requires
        d.wf(),
    ensures
        r@ == d.text(),
{
    let date = chrono::NaiveDate::from_ymd_opt(d.year, d.month, d.day).unwrap();
    date.format("%Y-%m-%d").to_string()
}

/// Relies on chrono's `NaiveDate::parse_from_str` with `%Y-%m-%d`: it gives
/// only days that exist, and it reads back the text that `format` writes
/// with the same pattern (four digits, or a sign and more, for `%Y`; two
/// digits each for `%m` and `%d`).
#[verifier::external_body]
fn parse_ymd(s: &str) -> (r: Option<Date>)
    ensures
        r is Some <==> read_date(s@) is Some,
        r is Some ==> r->0.wf() && r->0@ == read_date(s@)->0,
        !(exists|d: Date| d.wf() && #[trigger] d.text() == s@) ==> (r is Some <==> date_parse(s@) is Some),
{
    let date = chrono::NaiveDate::parse_from_str(s, "%Y-%m-%d").ok()?;
    Some(Date { year: date.year(), month: date.month(), day: date.day() })
}

/// Relies on chrono's `NaiveDate::signed_duration_since` and
/// `TimeDelta::num_days`: the number of days between two dates.
#[verifier::external_body]
fn signed_days_between(later: &Date, earlier: &Date) -> (r: i64)
    requires
        later.wf(),
        earlier.wf(),
    ensures
        r == later.days() - earlier.days(),
{
    let a = chrono::NaiveDate::from_ymd_opt(later.year, later.month, later.day).unwrap();
    let b = chrono::NaiveDate::from_ymd_opt(earlier.year, earlier.month, earlier.day).unwrap();
    a.signed_duration_since(b).num_days()
}

/// Relies on chrono's `Local::now`: today's date in the local time zone,
/// which is some day that exists. `Utc::now` panics where the system clock
/// reads a time before 1970, and a local offset is less than a day, so the
/// date is 1969-12-31 or later.
#[verifier::external_body]
fn local_today() -> (r: Date)
    ensures
        r.wf(),
        r.days() >= earliest_today(),
{
    let date = chrono::Local::now().date_naive();
    Date { year: date.year(), month: date.month(), day: date.day() }
}

proof fn lemma_digit_char(n: nat)
    requires
        n < 10,
    ensures
        '0' <= digit_char(n) <= '9',
        digit_char(n) as u32 == n + 48,
{
}

proof fn lemma_decimal_shape(n: nat)
    ensures
        decimal(n).len() >= 1,
        n >= 10 ==> decimal(n).len() >= 2,
        n < 10 ==> decimal(n).len() == 1,
        n < 100 ==> decimal(n).len() <= 2,
        decimal(n)[0] == '0' ==> n == 0,
        forall|i: int| 0 <= i < decimal(n).len() ==> '0' <= #[trigger] decimal(n)[i] <= '9',
    decreases n,
{
    lemma_digit_char(n % 10);
    if n >= 10 {
        lemma_decimal_shape(n / 10);
        let p = decimal(n / 10);
        assert(decimal(n) == p.push(digit_char(n % 10)));
        assert(decimal(n)[0] == p[0]);
        assert forall|i: int| 0 <= i < decimal(n).len() implies '0' <= #[trigger] decimal(n)[i] <= '9' by {
            if i < p.len() {
                assert(decimal(n)[i] == p[i]);
            }
        }
    } else {
        lemma_digit_char(n);
    }
}

proof fn lemma_decimal_injective(a: nat, b: nat)
    requires
        decimal(a) == decimal(b),
    ensures
        a == b,
    decreases a,
{
    lemma_decimal_shape(a);
    lemma_decimal_shape(b);
    lemma_digit_char(a % 10);
    lemma_digit_char(b % 10);
    if a >= 10 && b >= 10 {
        assert(decimal(a).drop_last() == decimal(a / 10));
        assert(decimal(b).drop_last() == decimal(b / 10));
        lemma_decimal_injective(a / 10, b / 10);
        assert(decimal(a).last() == digit_char(a % 10));
        assert(decimal(b).last() == digit_char(b % 10));
    } else if a < 10 && b < 10 {
        assert(decimal(a)[0] == digit_char(a));
        assert(decimal(b)[0] == digit_char(b));
    }
}

proof fn lemma_zero_padded_injective(a: nat, b: nat, w: nat)
    requires
        zero_padded(a, w) == zero_padded(b, w),
    ensures
        a == b,
{
    lemma_decimal_shape(a);
    lemma_decimal_shape(b);
    let da = decimal(a);
    let db = decimal(b);
    let s = zero_padded(a, w);
    if da.len() == db.len() {
        assert(da == s.subrange(s.len() - da.len(), s.len() as int));
        assert(db == s.subrange(s.len() - db.len(), s.len() as int));
        lemma_decimal_injective(a, b);
    } else if da.len() < db.len() {
        // The first digit of `b` stands where `a` is padded with zeros.
        assert(s[s.len() - db.len()] == db[0]);
        assert(s[s.len() - db.len()] == '0');
        assert(b == 0);
    } else {
        assert(s[s.len() - da.len()] == da[0]);
        assert(s[s.len() - da.len()] == '0');
        assert(a == 0);
    }
}

/// Two digits, for the numbers below 100.
proof fn lemma_two_digits(n: nat)
    requires
        n < 100,
    ensures
        zero_padded(n, 2).len() == 2,
{
    lemma_decimal_shape(n);
}

proof fn lemma_year_text_injective(a: int, b: int)
    requires
        year_text(a) == year_text(b),
    ensures
        a == b,
{
    lemma_decimal_shape(if a < 0 { (-a) as nat } else { a as nat });
    lemma_decimal_shape(if b < 0 { (-b) as nat } else { b as nat });
    let ta = year_text(a);
    if 0 <= a <= 9999 {
        let da = decimal(a as nat);
        assert(ta[ta.len() - da.len()] == da[0]);
        if ta.len() > da.len() {
            assert(ta[0] == '0');
        } else {
            assert(ta[0] == da[0]);
        }
        if 0 <= b <= 9999 {
            lemma_zero_padded_injective(a as nat, b as nat, 4);
        } else {
            assert(year_text(b)[0] == '-' || year_text(b)[0] == '+');
        }
    } else if 0 <= b <= 9999 {
        let db = decimal(b as nat);
        let tb = year_text(b);
        assert(tb[tb.len() - db.len()] == db[0]);
        if tb.len() > db.len() {
            assert(tb[0] == '0');
        } else {
            assert(tb[0] == db[0]);
        }
        assert(ta[0] == '-' || ta[0] == '+');
    } else if a < 0 && b < 0 {
        assert(zero_padded((-a) as nat, 4) == ta.drop_first());
        assert(zero_padded((-b) as nat, 4) == year_text(b).drop_first());
        lemma_zero_padded_injective((-a) as nat, (-b) as nat, 4);
    } else if a > 9999 && b > 9999 {
        assert(zero_padded(a as nat, 4) == ta.drop_first());
        assert(zero_padded(b as nat, 4) == year_text(b).drop_first());
        lemma_zero_padded_injective(a as nat, b as nat, 4);
    } else if a < 0 {
        assert(ta[0] == '-');
        assert(year_text(b)[0] == '+');
    } else {
        assert(ta[0] == '+');
        assert(year_text(b)[0] == '-');
    }
}

/// Different days that exist have different texts.
pub proof fn lemma_text_injective(a: Date, b: Date)
    requires
        a.wf(),
        b.wf(),
        a.text() == b.text(),
    ensures
        a == b,
{
    lemma_two_digits(a.month as nat);
    lemma_two_digits(a.day as nat);
    lemma_two_digits(b.month as nat);
    lemma_two_digits(b.day as nat);
    let s = a.text();
    let n = s.len() as int;
    let ya = year_text(a.year as int);
    let yb = year_text(b.year as int);
    assert(ya == s.subrange(0, n - 6));
    assert(yb == s.subrange(0, n - 6));
    lemma_year_text_injective(a.year as int, b.year as int);
    assert(zero_padded(a.month as nat, 2) == s.subrange(n - 5, n - 3));
    assert(zero_padded(b.month as nat, 2) == s.subrange(n - 5, n - 3));
    lemma_zero_padded_injective(a.month as nat, b.month as nat, 2);
    assert(zero_padded(a.day as nat, 2) == s.subrange(n - 2, n));
    assert(zero_padded(b.day as nat, 2) == s.subrange(n - 2, n));
    lemma_zero_padded_injective(a.day as nat, b.day as nat, 2);
}

} // verus!
