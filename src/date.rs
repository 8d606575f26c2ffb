//! Calendar dates and timestamps, with the proleptic Gregorian arithmetic
//! that calendar navigation relies on.

use chrono::Datelike;
use chrono::Timelike;
use vstd::prelude::*;

verus! {

/// The first year that a date can hold.
pub const MIN_YEAR: i32 = -262143;

/// The last year that a date can hold.
pub const MAX_YEAR: i32 = 262142;

/// A calendar date without a time of day.
#[derive(Clone, Copy, Debug, PartialEq, Eq, Structural)]
pub struct Date {
    pub year: i32,
    pub month: u32,
    pub day: u32,
}

/// A point in time: whole seconds since the Unix epoch, and nanoseconds
/// past that second.
#[derive(Clone, Copy, Debug, PartialEq, Eq, Structural)]
pub struct Stamp {
    pub secs: i64,
    pub nanos: u32,
}

pub open spec fn is_leap_year(y: int) -> bool {
    y % 4 == 0 && (y % 100 != 0 || y % 400 == 0)
}

pub open spec fn days_in_month(y: int, m: int) -> int {
    if m == 2 {
        if is_leap_year(y) {
            29
        } else {
            28
        }
    } else if m == 4 || m == 6 || m == 9 || m == 11 {
        30
    } else {
        31
    }
}

/// A (year, month, day) triple that names a day of the calendar.
pub open spec fn valid_ymd(t: (int, int, int)) -> bool {
    1 <= t.1 <= 12 && 1 <= t.2 <= days_in_month(t.0, t.1)
}

pub open spec fn year_in_range(y: int) -> bool {
    MIN_YEAR <= y <= MAX_YEAR
}

pub open spec fn next_day(t: (int, int, int)) -> (int, int, int) {
    if t.2 < days_in_month(t.0, t.1) {
        (t.0, t.1, t.2 + 1)
    } else if t.1 < 12 {
        (t.0, t.1 + 1, 1)
    } else {
        (t.0 + 1, 1, 1)
    }
}

pub open spec fn prev_day(t: (int, int, int)) -> (int, int, int) {
    if t.2 > 1 {
        (t.0, t.1, t.2 - 1)
    } else if t.1 > 1 {
        (t.0, t.1 - 1, days_in_month(t.0, t.1 - 1))
    } else {
        (t.0 - 1, 12, 31)
    }
}

/// The day `n` days after `t` (before it, for a negative `n`).
pub open spec fn days_after(t: (int, int, int), n: int) -> (int, int, int)
    decreases (if n < 0 { -n } else { n }),
{
    if n > 0 {
        next_day(days_after(t, n - 1))
    } else if n < 0 {
        prev_day(days_after(t, n + 1))
    } else {
        t
    }
}

/// Months counted from year 0, so that consecutive months differ by one.
pub open spec fn month_index(y: int, m: int) -> int {
    y * 12 + m - 1
}

impl Date {
    pub open spec fn view(self) -> (int, int, int) {
        (self.year as int, self.month as int, self.day as int)
    }

    pub open spec fn wf(self) -> bool {
        valid_ymd(self@) && year_in_range(self.year as int)
    }

    pub open spec fn month_key(self) -> int {
        month_index(self.year as int, self.month as int)
    }

    pub open spec fn spec_previous_month(&self) -> Date {
        if self.month == 1 {
            Date { year: (self.year - 1) as i32, month: 12, day: 1 }
        } else {
            Date { year: self.year, month: (self.month - 1) as u32, day: 1 }
        }
    }

    pub open spec fn spec_next_month(&self) -> Date {
        if self.month == 12 {
            Date { year: (self.year + 1) as i32, month: 1, day: 1 }
        } else {
            Date { year: self.year, month: (self.month + 1) as u32, day: 1 }
        }
    }

    /// The first day of the month before this date's month.
    #[verifier::when_used_as_spec(spec_previous_month)]
    pub fn previous_month(&self) -> (r: Date)
        requires
            self.wf(),
            self.year > MIN_YEAR || self.month > 1,
        ensures
            r.wf(),
            r.day == 1,
            r.month_key() == self.month_key() - 1,
            r == self.spec_previous_month(),
    {
        if self.month == 1 {
            Date { year: self.year - 1, month: 12, day: 1 }
        } else {
            Date { year: self.year, month: self.month - 1, day: 1 }
        }
    }

    /// The first day of the month after this date's month.
    #[verifier::when_used_as_spec(spec_next_month)]
    pub fn next_month(&self) -> (r: Date)
        requires
            self.wf(),
            self.year < MAX_YEAR || self.month < 12,
        ensures
            r.wf(),
            r.day == 1,
            r.month_key() == self.month_key() + 1,
            r == self.spec_next_month(),
    {
        if self.month == 12 {
            Date { year: self.year + 1, month: 1, day: 1 }
        } else {
            Date { year: self.year, month: self.month + 1, day: 1 }
        }
    }
}


/// Walking forward at most a week from a day lands in its month or the next.
proof fn lemma_days_forward(t: (int, int, int), k: int)
    requires
        valid_ymd(t),
        0 <= k <= 7,
    ensures
        valid_ymd(days_after(t, k)),
        ({
            let r = days_after(t, k);
            (r.0 == t.0 && r.1 == t.1 && r.2 == t.2 + k) || (month_index(r.0, r.1)
                == month_index(t.0, t.1) + 1 && r.2 == t.2 + k - days_in_month(t.0, t.1))
        }),
    decreases k,
{
    if k > 0 {
        lemma_days_forward(t, k - 1);
    }
}

/// Walking back at most a week from a day lands in its month or the one before.
proof fn lemma_days_backward(t: (int, int, int), k: int)
    requires
        valid_ymd(t),
        0 <= k <= 7,
    ensures
        valid_ymd(days_after(t, -k)),
        ({
            let r = days_after(t, -k);
            (r.0 == t.0 && r.1 == t.1 && r.2 == t.2 - k) || (month_index(r.0, r.1)
                == month_index(t.0, t.1) - 1 && r.2 == t.2 - k + days_in_month(r.0, r.1))
        }),
    decreases k,
{
    if k > 0 {
        lemma_days_backward(t, k - 1);
        assert(days_after(t, -k) == prev_day(days_after(t, -k + 1)));
    }
}

/// A step of at most seven days changes the month by at most one.
pub proof fn lemma_short_step_month(t: (int, int, int), n: int)
    requires
        valid_ymd(t),
        -7 <= n <= 7,
    ensures
        valid_ymd(days_after(t, n)),
        month_index(t.0, t.1) - 1 <= month_index(days_after(t, n).0, days_after(t, n).1)
            <= month_index(t.0, t.1) + 1,
{
    if n >= 0 {
        lemma_days_forward(t, n);
    } else {
        lemma_days_backward(t, -n);
    }
}

/// The date that a (year, month, day) triple names.
pub open spec fn date_of(t: (int, int, int)) -> Date {
    Date { year: t.0 as i32, month: t.1 as u32, day: t.2 as u32 }
}

/// The cursor's month lies in the window of three months around the anchor's.
pub open spec fn in_window(anchor: Date, d: Date) -> bool {
    anchor.month_key() - 1 <= d.month_key() <= anchor.month_key() + 1
}

/// The anchor after the cursor moved to `c`: one month back when `c` lies
/// before the window, one month on when it lies after it.
pub open spec fn followed_anchor(anchor: Date, c: Date) -> Date {
    if c.month_key() < anchor.month_key() - 1 {
        anchor.previous_month()
    } else if c.month_key() > anchor.month_key() + 1 {
        anchor.next_month()
    } else {
        anchor
    }
}

/// Anchor and cursor after one move of `n` days. An unset cursor is set to
/// today instead, and a move out of the years that a date can hold is
/// ignored.
pub open spec fn navigated(anchor: Date, cursor: Option<Date>, today: Date, n: int) -> (
    Date,
    Option<Date>,
) {
    match cursor {
        None => (anchor, Some(today)),
        Some(c) => {
            let t = days_after(c@, n);
            if year_in_range(t.0) {
                (followed_anchor(anchor, date_of(t)), Some(date_of(t)))
            } else {
                (anchor, cursor)
            }
        },
    }
}

/// Anchor and cursor after a run of moves.
pub open spec fn navigated_all(anchor: Date, cursor: Option<Date>, today: Date, steps: Seq<i64>) -> (
    Date,
    Option<Date>,
)
    decreases steps.len(),
{
    if steps.len() == 0 {
        (anchor, cursor)
    } else {
        let (a, c) = navigated_all(anchor, cursor, today, steps.drop_last());
        navigated(a, c, today, steps.last() as int)
    }
}

/// The calendar shows the cursor, or the cursor is unset and today is
/// within the window.
pub open spec fn calendar_settled(anchor: Date, cursor: Option<Date>, today: Date) -> bool {
    &&& anchor.wf()
    &&& today.wf()
    &&& match cursor {
        Some(c) => c.wf() && in_window(anchor, c),
        None => in_window(anchor, today),
    }
}

/// After a move of at most a week, the cursor's month is the anchor's, the
/// one before or the one after.
pub proof fn lemma_move_stays_in_window(anchor: Date, cursor: Option<Date>, today: Date, n: int)
    requires
        calendar_settled(anchor, cursor, today),
        -7 <= n <= 7,
    ensures
        calendar_settled(navigated(anchor, cursor, today, n).0, navigated(anchor, cursor, today, n).1, today),
        navigated(anchor, cursor, today, n).1 matches Some(c) && in_window(
            navigated(anchor, cursor, today, n).0,
            c,
        ),
{
    if let Some(c) = cursor {
        lemma_short_step_month(c@, n);
        let t = days_after(c@, n);
        if year_in_range(t.0) {
            let d = date_of(t);
            assert(d@ == t);
            assert(d.wf());
            if d.month_key() < anchor.month_key() - 1 {
                assert(anchor.year > MIN_YEAR || anchor.month > 1);
            } else if d.month_key() > anchor.month_key() + 1 {
                assert(anchor.year < MAX_YEAR || anchor.month < 12);
            }
        }
    }
}

/// Over any run of moves of at most a week each, the cursor stays within
/// the three months that the calendar shows.
pub proof fn lemma_moves_stay_in_window(anchor: Date, cursor: Option<Date>, today: Date, steps: Seq<i64>)
    requires
        calendar_settled(anchor, cursor, today),
        forall|k: int| 0 <= k < steps.len() ==> -7 <= #[trigger] steps[k] <= 7,
    ensures
        calendar_settled(navigated_all(anchor, cursor, today, steps).0, navigated_all(anchor, cursor, today, steps).1, today),
        steps.len() > 0 ==> navigated_all(anchor, cursor, today, steps).1 is Some,
    decreases steps.len(),
{
    if steps.len() > 0 {
        let rest = steps.drop_last();
        lemma_moves_stay_in_window(anchor, cursor, today, rest);
        let (a, c) = navigated_all(anchor, cursor, today, rest);
        lemma_move_stays_in_window(a, c, today, steps.last() as int);
    }
}

/// Relies on chrono's `NaiveDate::checked_add_signed`, which moves a date by
/// a whole number of days and gives `None` when the result leaves the years
/// that a date can hold.
#[verifier::external_body]
pub(crate) fn shift_days(d: Date, n: i64) -> (r: Option<Date>)
    requires
        d.wf(),
        -7 <= n <= 7,
    ensures
        r.is_some() == year_in_range(days_after(d@, n as int).0),
        r matches Some(x) ==> x@ == days_after(d@, n as int) && x.wf(),
{
    let start = chrono::NaiveDate::from_ymd_opt(d.year, d.month, d.day).unwrap();
    match start.checked_add_signed(chrono::TimeDelta::days(n)) {
        Some(x) => Some(Date { year: x.year(), month: x.month(), day: x.day() }),
        None => None,
    }
}

/// What chrono counts as the day number of a date, with 1970-01-01 as day 0.
pub uninterp spec fn epoch_day_of(t: (int, int, int)) -> int;

/// Relies on chrono's `NaiveDate::to_epoch_days`: the number of days from
/// 1970-01-01 to the date.
#[verifier::external_body]
pub(crate) fn epoch_day(d: Date) -> (r: i32)
    requires
        d.wf(),
    ensures
        r == epoch_day_of(d@),
        days_after((1970, 1, 1), r as int) == d@,
{
    let x = chrono::NaiveDate::from_ymd_opt(d.year, d.month, d.day).unwrap();
    x.to_epoch_days()
}

/// Relies on chrono's `Local::now` and `DateTime::date_naive`: today's date in
/// the machine's time zone.
#[verifier::external_body]
pub(crate) fn today() -> (r: Date)
    ensures
        r.wf(),
{
    let now = chrono::Local::now().date_naive();
    Date { year: now.year(), month: now.month(), day: now.day() }
}

/// Relies on chrono's `Utc::now`: the current time, as seconds since the Unix
/// epoch and the nanoseconds past that second, taken from the system clock.
#[verifier::external_body]
pub(crate) fn now_stamp() -> (r: Stamp)
    ensures
        r.secs >= 0,
        r.nanos < 1_000_000_000,
{
    let now = chrono::Utc::now();
    Stamp { secs: now.timestamp(), nanos: now.nanosecond() }
}

/// What chrono makes of a text when it parses it as `%Y-%m-%d`: a
/// (year, month, day) triple, or `None` where the text is no such date.
pub uninterp spec fn ymd_parse(s: Seq<char>) -> Option<(int, int, int)>;

pub open spec fn is_digit(c: char) -> bool {
    '0' <= c && c <= '9'
}

pub open spec fn digit_value(c: char) -> int {
    c as u32 - '0' as u32
}

/// The fields of a text of exactly the form `DDDD-DD-DD`.
pub open spec fn iso_fields(s: Seq<char>) -> Option<(int, int, int)> {
    if s.len() == 10 && s[4] == '-' && s[7] == '-' && is_digit(s[0]) && is_digit(s[1])
        && is_digit(s[2]) && is_digit(s[3]) && is_digit(s[5]) && is_digit(s[6]) && is_digit(s[8])
        && is_digit(s[9]) {
        Some(
            (
                digit_value(s[0]) * 1000 + digit_value(s[1]) * 100 + digit_value(s[2]) * 10
                    + digit_value(s[3]),
                digit_value(s[5]) * 10 + digit_value(s[6]),
                digit_value(s[8]) * 10 + digit_value(s[9]),
            ),
        )
    } else {
        None
    }
}

/// Relies on chrono's `NaiveDate::parse_from_str` with the format `%Y-%m-%d`:
/// a date that it returns is a valid one, and a text of the form
/// `DDDD-DD-DD` that names a day of the calendar gives that day.
#[verifier::external_body]
pub(crate) fn parse_date(s: &str) -> (r: Option<Date>)
    ensures
        r.is_some() == ymd_parse(s@).is_some(),
        r matches Some(d) ==> d.wf() && ymd_parse(s@) == Some(d@),
        (iso_fields(s@) matches Some(t) && valid_ymd(t)) ==> r == Some(date_of(iso_fields(s@).unwrap())),
{
    match chrono::NaiveDate::parse_from_str(s, "%Y-%m-%d") {
        Ok(x) => Some(Date { year: x.year(), month: x.month(), day: x.day() }),
        Err(_) => None,
    }
}

pub open spec fn digit(k: int) -> char {
    if k == 0 {
        '0'
    } else if k == 1 {
        '1'
    } else if k == 2 {
        '2'
    } else if k == 3 {
        '3'
    } else if k == 4 {
        '4'
    } else if k == 5 {
        '5'
    } else if k == 6 {
        '6'
    } else if k == 7 {
        '7'
    } else if k == 8 {
        '8'
    } else {
        '9'
    }
}

/// `YYYY-MM-DD` for a year of at most four digits.
pub open spec fn iso_text(t: (int, int, int)) -> Seq<char> {
    seq![
        digit(t.0 / 1000),
        digit(t.0 / 100 % 10),
        digit(t.0 / 10 % 10),
        digit(t.0 % 10),
        '-',
        digit(t.1 / 10),
        digit(t.1 % 10),
        '-',
        digit(t.2 / 10),
        digit(t.2 % 10),
    ]
}

/// Relies on chrono's `NaiveDate::format` with `%Y-%m-%d`: the year padded
/// with zeros to four digits (years past that width carry a sign), month and
/// day to two.
#[verifier::external_body]
pub(crate) fn format_date(d: Date) -> (r: String)
    requires
        d.wf(),
    ensures
        0 <= d.year <= 9999 ==> r@ == iso_text(d@),
        !(0 <= d.year <= 9999) ==> r@.len() > 0 && (r@[0] == '+' || r@[0] == '-'),
{
    let x = chrono::NaiveDate::from_ymd_opt(d.year, d.month, d.day).unwrap();
    x.format("%Y-%m-%d").to_string()
}


proof fn lemma_next_day_valid(t: (int, int, int))
    requires
        valid_ymd(t),
    ensures
        valid_ymd(next_day(t)),
{
}

proof fn lemma_forward_valid(t: (int, int, int), n: int)
    requires
        valid_ymd(t),
        n >= 0,
    ensures
        valid_ymd(days_after(t, n)),
    decreases n,
{
    if n > 0 {
        lemma_forward_valid(t, n - 1);
        lemma_next_day_valid(days_after(t, n - 1));
    }
}

proof fn lemma_forward_compose(t: (int, int, int), a: int, b: int)
    requires
        a >= 0,
        b >= 0,
    ensures
        days_after(t, a + b) == days_after(days_after(t, a), b),
    decreases b,
{
    if b > 0 {
        lemma_forward_compose(t, a, b - 1);
    }
}

/// From an unset cursor, a run of moves of a week each first puts the
/// cursor on today, leaving the anchor where it was, and each later move
/// takes it seven days on; the days passed through lie within the years
/// that a date can hold.
pub proof fn lemma_week_moves_from_unset(anchor: Date, today: Date, steps: Seq<i64>)
    requires
        today.wf(),
        steps.len() >= 1,
        forall|k: int| 0 <= k < steps.len() ==> #[trigger] steps[k] == 7,
        forall|k: int|
            0 <= k < steps.len() ==> year_in_range(#[trigger] days_after(today@, 7 * k).0),
    ensures
        navigated_all(anchor, None, today, steps).1 == Some(
            date_of(days_after(today@, 7 * (steps.len() - 1))),
        ),
        navigated_all(anchor, None, today, steps.take(1)) == (anchor, Some(today)),
    decreases steps.len(),
{
    assert(steps.take(1).drop_last() =~= Seq::<i64>::empty());
    assert(steps.take(1).last() == 7);
    assert(date_of(today@) == today);
    assert(navigated_all(anchor, None, today, steps.take(1).drop_last()) == (anchor, None::<Date>));
    assert(navigated_all(anchor, None, today, steps.take(1)) == navigated(anchor, None, today, 7));
    if steps.len() > 1 {
        let rest = steps.drop_last();
        assert(rest.take(1) =~= steps.take(1));
        lemma_week_moves_from_unset(anchor, today, rest);
        let m = 7 * (steps.len() - 2);
        assert(year_in_range(days_after(today@, m).0));
        lemma_forward_valid(today@, m);
        let c = date_of(days_after(today@, m));
        assert(c@ == days_after(today@, m));
        lemma_forward_compose(today@, m, 7);
        assert(steps.last() == 7);
        assert(year_in_range(days_after(today@, 7 * (steps.len() - 1)).0));
    }
}

proof fn lemma_digit(k: int)
    requires
        0 <= k <= 9,
    ensures
        is_digit(digit(k)),
        digit_value(digit(k)) == k,
{
}

/// Writing a date with a year of at most four digits as `YYYY-MM-DD` and
/// reading the fields back gives the date again.
pub proof fn lemma_iso_round_trip(t: (int, int, int))
    requires
        valid_ymd(t),
        0 <= t.0 <= 9999,
    ensures
        iso_fields(iso_text(t)) == Some(t),
{
    lemma_digit(t.0 / 1000);
    lemma_digit(t.0 / 100 % 10);
    lemma_digit(t.0 / 10 % 10);
    lemma_digit(t.0 % 10);
    lemma_digit(t.1 / 10);
    lemma_digit(t.1 % 10);
    lemma_digit(t.2 / 10);
    lemma_digit(t.2 % 10);
    let s = iso_text(t);
    assert(s[4] == '-' && s[7] == '-');
    assert(t.0 == (t.0 / 1000) * 1000 + (t.0 / 100 % 10) * 100 + (t.0 / 10 % 10) * 10 + t.0 % 10)
        by (nonlinear_arith)
        requires
            0 <= t.0 <= 9999,
    ;
}

} // verus!
