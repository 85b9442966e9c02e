//! Instants with a zone offset, and the date window of a query.

use vstd::prelude::*;
use vstd::string::*;

verus! {

/// The earliest instant that can be held, in seconds since 1970-01-01T00:00:00Z:
/// the first second of the year -262143.
pub const MIN_TIMESTAMP: i64 = -8_334_601_228_800;

/// The latest instant that can be held: the last second of the year 262142.
pub const MAX_TIMESTAMP: i64 = 8_210_266_876_799;

/// A zone offset lies strictly between minus and plus one day, in seconds.
pub const OFFSET_LIMIT: i32 = 86_400;

/// 9999-12-01T00:00:00Z, the end of a window that was given none.
pub const DEFAULT_END_TIMESTAMP: i64 = 253_399_622_400;

/// The seconds of one calendar day.
pub const SECONDS_PER_DAY: i64 = 86_400;

/// 0000-01-01 in days since 1970-01-01: the first day whose year is written
/// with four digits.
pub const FIRST_WRITABLE_DAY: i64 = -719_528;

/// 9999-12-31 in days since 1970-01-01: the last day whose year is written
/// with four digits.
pub const LAST_WRITABLE_DAY: i64 = 2_932_896;

/// `secs` and `offset` are an instant and a zone offset that can be held.
pub open spec fn representable(secs: int, offset: int) -> bool {
    &&& MIN_TIMESTAMP <= secs <= MAX_TIMESTAMP
    &&& -OFFSET_LIMIT < offset < OFFSET_LIMIT
}

/// The calendar day on which the instant `secs` falls in a zone `offset`
/// seconds east of Greenwich, counted in days since 1970-01-01.
pub open spec fn local_day(secs: int, offset: int) -> int {
    (secs + offset) / (SECONDS_PER_DAY as int)
}

/// An instant of whole seconds, with the offset of the zone it was stated in.
#[derive(Clone, Copy, Debug)]
pub struct DateTime {
    timestamp: i64,
    offset: i32,
}

impl DateTime {
    #[verifier::type_invariant]
    spec fn well_formed(self) -> bool {
        representable(self.timestamp as int, self.offset as int)
    }

    /// Seconds since 1970-01-01T00:00:00Z.
    pub closed spec fn secs(self) -> int {
        self.timestamp as int
    }

    /// Seconds that the zone is east of Greenwich.
    pub closed spec fn offset_secs(self) -> int {
        self.offset as int
    }

    /// The calendar day of this instant in its own zone.
    pub open spec fn day(self) -> int {
        local_day(self.secs(), self.offset_secs())
    }

    /// The instant `secs` seconds after 1970-01-01T00:00:00Z, stated in a zone
    /// `offset` seconds east of Greenwich; `None` where either is out of range.
    pub fn from_timestamp(secs: i64, offset: i32) -> (r: Option<DateTime>)
        ensures
            r is Some <==> representable(secs as int, offset as int),
            r matches Some(t) ==> t.secs() == secs && t.offset_secs() == offset,
    {
        if MIN_TIMESTAMP <= secs && secs <= MAX_TIMESTAMP && -OFFSET_LIMIT < offset && offset
            < OFFSET_LIMIT {
            Some(DateTime { timestamp: secs, offset })
        } else {
            None
        }
    }

    /// 9999-12-01T00:00:00Z.
    pub fn default_end() -> (t: DateTime)
        ensures
            t.secs() == DEFAULT_END_TIMESTAMP,
            t.offset_secs() == 0,
    {
        DateTime { timestamp: DEFAULT_END_TIMESTAMP, offset: 0 }
    }

    /// Seconds since 1970-01-01T00:00:00Z.
    pub fn timestamp(&self) -> (secs: i64)
        ensures
            secs == self.secs(),
            MIN_TIMESTAMP <= secs <= MAX_TIMESTAMP,
    {
        proof {
            use_type_invariant(self);
        }
        self.timestamp
    }

    /// Seconds that the zone is east of Greenwich.
    pub fn offset(&self) -> (offset: i32)
        ensures
            offset == self.offset_secs(),
            -OFFSET_LIMIT < offset < OFFSET_LIMIT,
    {
        proof {
            use_type_invariant(self);
        }
        self.offset
    }

    /// The calendar day of this instant in its own zone, in days since
    /// 1970-01-01.
    pub fn local_day(&self) -> (day: i64)
        ensures
            day == self.day(),
    {
        proof {
            use_type_invariant(self);
        }
        let local: i64 = self.timestamp + self.offset as i64;
        match local.checked_div_euclid(SECONDS_PER_DAY) {
            Some(day) => day,
            None => 0,
        }
    }
}

/// The calendar days that a search on the server is asked for: the day of
/// the window's start and the day of its end, each in its own zone.
#[derive(Clone, Copy, Debug, PartialEq, Eq, Structural)]
pub struct CoarseQuery {
    pub since_day: i64,
    pub before_day: i64,
}

/// The day `day` has a year of four digits, so that a date search can
/// name it.
pub open spec fn writable_day(day: int) -> bool {
    FIRST_WRITABLE_DAY <= day <= LAST_WRITABLE_DAY
}

/// The day `day` as a date search writes it: day, English month
/// abbreviation, year.
pub open spec fn day_text(day: int) -> Seq<char> {
    formatted_text(day * (SECONDS_PER_DAY as int), 0, "%d-%b-%Y"@)
}

/// The search keys `since` and `before` in one text; the key `ALL` where
/// there is neither.
pub open spec fn joined_keys(since: Option<Seq<char>>, before: Option<Seq<char>>) -> Seq<char> {
    match (since, before) {
        (Some(s), Some(b)) => s + " "@ + b,
        (Some(s), None) => s,
        (None, Some(b)) => b,
        (None, None) => "ALL"@,
    }
}

impl CoarseQuery {
    /// The day `day` is one of the days asked for.
    pub open spec fn admits(self, day: int) -> bool {
        self.since_day <= day <= self.before_day
    }

    /// The key that bounds the search from below: the mails since the first
    /// day. There is none where that day cannot be named.
    pub open spec fn since_key(self) -> Option<Seq<char>> {
        if writable_day(self.since_day as int) {
            Some("SINCE "@ + day_text(self.since_day as int))
        } else {
            None
        }
    }

    /// The key that bounds the search from above: the mails before the day
    /// that follows the last day, for the server leaves the day that it is
    /// given out. There is none where that day cannot be named.
    pub open spec fn before_key(self) -> Option<Seq<char>> {
        if writable_day(self.before_day + 1) {
            Some("BEFORE "@ + day_text(self.before_day + 1))
        } else {
            None
        }
    }

    /// The text of the search that asks the server for these days. A bound
    /// that cannot be named is left out, which asks for more days, never
    /// for fewer.
    pub open spec fn text(self) -> Seq<char> {
        joined_keys(self.since_key(), self.before_key())
    }

    /// The text of the search that asks the server for these days.
    pub fn search_text(&self) -> (r: String)
        ensures
            r@ == self.text(),
    {
        let since = if FIRST_WRITABLE_DAY <= self.since_day && self.since_day <= LAST_WRITABLE_DAY {
            Some(search_key("SINCE ", self.since_day))
        } else {
            None
        };
        let before = if FIRST_WRITABLE_DAY - 1 <= self.before_day && self.before_day
            < LAST_WRITABLE_DAY {
            Some(search_key("BEFORE ", self.before_day + 1))
        } else {
            None
        };
        join_keys(since, before)
    }
}

/// The search key `key` with the day `day` behind it.
fn search_key(key: &str, day: i64) -> (r: String)
    requires
        writable_day(day as int),
    ensures
        r@ == key@ + day_text(day as int),
{
    let mut r = String::from_str(key);
    r.append(chrono_format(day * SECONDS_PER_DAY, 0, "%d-%b-%Y").as_str());
    r
}

/// Puts the search keys `since` and `before` into one text.
pub fn join_keys(since: Option<String>, before: Option<String>) -> (r: String)
    ensures
        r@ == joined_keys(
            match since {
                Some(s) => Some(s@),
                None => None,
            },
            match before {
                Some(b) => Some(b@),
                None => None,
            },
        ),
{
    match (since, before) {
        (Some(s), Some(b)) => {
            let mut r = s;
            r.append(" ");
            r.append(b.as_str());
            r
        },
        (Some(s), None) => s,
        (None, Some(b)) => b,
        (None, None) => String::from_str("ALL"),
    }
}

/// The instants from `start` to `end`, both included. A window whose end lies
/// before its start holds no instant.
#[derive(Clone, Copy, Debug)]
pub struct DateWindow {
    pub start: DateTime,
    pub end: DateTime,
}

impl DateWindow {
    /// The instant `t` lies in the window, by whole seconds.
    pub open spec fn holds(self, t: DateTime) -> bool {
        self.start.secs() <= t.secs() <= self.end.secs()
    }

    /// The days of the window's two ends.
    pub open spec fn coarse(self) -> CoarseQuery {
        CoarseQuery { since_day: self.start.day() as i64, before_day: self.end.day() as i64 }
    }

    /// The window from `start` with no end given: it ends at 9999-12-01T00:00:00Z.
    pub fn starting(start: DateTime) -> (w: DateWindow)
        ensures
            w.start == start,
            w.end.secs() == DEFAULT_END_TIMESTAMP,
            w.end.offset_secs() == 0,
    {
        DateWindow { start, end: DateTime::default_end() }
    }

    /// The window from `start` to `end`.
    pub fn between(start: DateTime, end: DateTime) -> (w: DateWindow)
        ensures
            w.start == start,
            w.end == end,
    {
        DateWindow { start, end }
    }

    /// Tests whether `t` lies in the window. The ends are included.
    pub fn contains(&self, t: &DateTime) -> (inside: bool)
        ensures
            inside == self.holds(*t),
            inside <==> self.start.secs() <= t.secs() <= self.end.secs(),
    {
        self.start.timestamp() <= t.timestamp() && t.timestamp() <= self.end.timestamp()
    }

    /// The calendar days to ask the server for.
    pub fn coarse_query(&self) -> (q: CoarseQuery)
        ensures
            q == self.coarse(),
            q.since_day == self.start.day(),
            q.before_day == self.end.day(),
    {
        CoarseQuery { since_day: self.start.local_day(), before_day: self.end.local_day() }
    }
}

/// The days asked for cover the window: an instant of the window falls, in
/// the zone of the window's start, on the day of the start or later, and in
/// the zone of the window's end, on the day of the end or earlier. So where
/// the instant is stated in the zone of both ends, its own day is one of the
/// days asked for.
pub proof fn lemma_coarse_query_covers_window(w: DateWindow, t: DateTime)
    requires
        w.holds(t),
    ensures
        w.start.day() <= local_day(t.secs(), w.start.offset_secs()),
        local_day(t.secs(), w.end.offset_secs()) <= w.end.day(),
        t.offset_secs() == w.start.offset_secs() && t.offset_secs() == w.end.offset_secs()
            ==> w.coarse().admits(t.day()),
{
    lemma_day_is_monotonic(
        w.start.secs() + w.start.offset_secs(),
        t.secs() + w.start.offset_secs(),
    );
    lemma_day_is_monotonic(t.secs() + w.end.offset_secs(), w.end.secs() + w.end.offset_secs());
}

/// A later second does not fall on an earlier day.
pub proof fn lemma_day_is_monotonic(a: int, b: int)
    requires
        a <= b,
    ensures
        a / (SECONDS_PER_DAY as int) <= b / (SECONDS_PER_DAY as int),
{
    vstd::arithmetic::div_mod::lemma_div_is_ordered(a, b, SECONDS_PER_DAY as int);
}

/// What chrono writes for the instant `secs` in the zone `offset` under the
/// strftime pattern `pattern`.
pub uninterp spec fn formatted_text(secs: int, offset: int, pattern: Seq<char>) -> Seq<char>;

/// What chrono writes for the instant `secs` in the zone `offset` in the form
/// of RFC 3339.
pub uninterp spec fn rfc3339_text(secs: int, offset: int) -> Seq<char>;

/// The local second, counted from 1970-01-01T00:00:00, that chrono reads from
/// `s` under the pattern `%Y-%m-%dT%H:%M:%S`; `None` where it reads none.
pub uninterp spec fn date_time_reading(s: Seq<char>) -> Option<i64>;

/// The day, counted from 1970-01-01, that chrono reads from `s` under the
/// pattern `%Y-%m-%d`; `None` where it reads none.
pub uninterp spec fn date_reading(s: Seq<char>) -> Option<i32>;

/// The two patterns that the library writes instants with.
pub open spec fn known_pattern(pattern: Seq<char>) -> bool {
    pattern == "%d-%b-%Y"@ || pattern == "%Y-%m-%dT%H:%M:%S"@
}

/// `chrono::DateTime::format`, on the instant `secs` moved to the zone
/// `offset`. Claimed: the text is a function of the instant, the offset and
/// the pattern. The instant and the offset are in chrono's range and the
/// pattern is one of two that chrono accepts, so the call does not panic.
#[verifier::external_body]
fn chrono_format(secs: i64, offset: i32, pattern: &str) -> (r: String)
    requires
        representable(secs as int, offset as int),
        known_pattern(pattern@),
    ensures
        r@ == formatted_text(secs as int, offset as int, pattern@),
{
    let zone = chrono::FixedOffset::east_opt(offset).unwrap();
    let utc = chrono::DateTime::from_timestamp(secs, 0).unwrap();
    utc.with_timezone(&zone).format(pattern).to_string()
}

/// `chrono::DateTime::to_rfc3339`, on the instant `secs` moved to the zone
/// `offset`. Claimed: the text is a function of the instant and the offset.
#[verifier::external_body]
fn chrono_rfc3339(secs: i64, offset: i32) -> (r: String)
    requires
        representable(secs as int, offset as int),
    ensures
        r@ == rfc3339_text(secs as int, offset as int),
{
    let zone = chrono::FixedOffset::east_opt(offset).unwrap();
    let utc = chrono::DateTime::from_timestamp(secs, 0).unwrap();
    utc.with_timezone(&zone).to_rfc3339()
}

/// `chrono::NaiveDateTime::parse_from_str` with the pattern
/// `%Y-%m-%dT%H:%M:%S`. Claimed: what is read is a function of the text.
#[verifier::external_body]
fn chrono_read_date_time(s: &str) -> (r: Option<i64>)
    ensures
        r == date_time_reading(s@),
{
    chrono::NaiveDateTime::parse_from_str(s, "%Y-%m-%dT%H:%M:%S").ok().map(
        |t| t.and_utc().timestamp(),
    )
}

/// `chrono::NaiveDate::parse_from_str` with the pattern `%Y-%m-%d`. Claimed:
/// what is read is a function of the text.
#[verifier::external_body]
fn chrono_read_date(s: &str) -> (r: Option<i32>)
    ensures
        r == date_reading(s@),
{
    chrono::NaiveDate::parse_from_str(s, "%Y-%m-%d").ok().map(|d| d.to_epoch_days())
}

/// The local second that two readings of one text give: the reading as a
/// date with a time of day where there is one, else the midnight of the
/// reading as a date alone.
pub open spec fn local_second(date_time: Option<i64>, date: Option<i32>) -> Option<int> {
    match date_time {
        Some(t) => Some(t as int),
        None => match date {
            Some(d) => Some(d * (SECONDS_PER_DAY as int)),
            None => None,
        },
    }
}

/// The instant of the local second `local` in a zone `offset` seconds east
/// of Greenwich, where it can be held.
pub open spec fn instant_of(local: Option<int>, offset: int) -> Option<int> {
    match local {
        Some(second) => if representable(second - offset, offset) {
            Some(second - offset)
        } else {
            None
        },
        None => None,
    }
}

/// The instant that `s` states in a zone `offset` seconds east of Greenwich,
/// where it states one that can be held.
pub open spec fn instant_reading(s: Seq<char>, offset: int) -> Option<int> {
    instant_of(local_second(date_time_reading(s), date_reading(s)), offset)
}

impl DateTime {
    /// This instant in its own zone as `YYYY-MM-DDTHH:MM:SS`.
    pub fn to_string(&self) -> (r: String)
        ensures
            r@ == formatted_text(self.secs(), self.offset_secs(), "%Y-%m-%dT%H:%M:%S"@),
    {
        proof {
            use_type_invariant(self);
        }
        chrono_format(self.timestamp, self.offset, "%Y-%m-%dT%H:%M:%S")
    }

    /// This instant in the form of RFC 3339, with its offset.
    pub fn to_rfc3339(&self) -> (r: String)
        ensures
            r@ == rfc3339_text(self.secs(), self.offset_secs()),
    {
        proof {
            use_type_invariant(self);
        }
        chrono_rfc3339(self.timestamp, self.offset)
    }

    /// The instant that two readings of one text give in the zone `offset`
    /// seconds east of Greenwich: `date_time` is the local second read from
    /// a date with a time of day, `date` the day read from a date alone, which
    /// stands for its midnight. `None` where there is neither reading or the
    /// instant is out of range.
    pub fn from_readings(date_time: Option<i64>, date: Option<i32>, offset: i32) -> (r: Option<
        DateTime,
    >)
        ensures
            r is Some <==> instant_of(local_second(date_time, date), offset as int) is Some,
            r matches Some(t) ==> t.secs() == instant_of(
                local_second(date_time, date),
                offset as int,
            )->0 && t.offset_secs() == offset,
    {
        let local: i64 = match date_time {
            Some(t) => t,
            None => match date {
                Some(d) => d as i64 * SECONDS_PER_DAY,
                None => { return None; },
            },
        };
        if local < MIN_TIMESTAMP - OFFSET_LIMIT as i64 || local > MAX_TIMESTAMP
            + OFFSET_LIMIT as i64 {
            return None;
        }
        DateTime::from_timestamp(local - offset as i64, offset)
    }

    /// Reads `YYYY-MM-DDTHH:MM:SS` or `YYYY-MM-DD` as a local time in the zone
    /// `offset` seconds east of Greenwich; a date alone stands for its
    /// midnight. `None` where `s` is neither, or states an instant out of range.
    pub fn from_str(s: &str, offset: i32) -> (r: Option<DateTime>)
        ensures
            r is Some <==> instant_reading(s@, offset as int) is Some,
            r matches Some(t) ==> t.secs() == instant_reading(s@, offset as int)->0
                && t.offset_secs() == offset,
    {
        let date_time = chrono_read_date_time(s);
        let date = match date_time {
            Some(_) => None,
            None => chrono_read_date(s),
        };
        DateTime::from_readings(date_time, date, offset)
    }
}

/// A window whose end lies before its start holds no instant.
pub proof fn lemma_inverted_window_is_empty(w: DateWindow, t: DateTime)
    requires
        w.end.secs() < w.start.secs(),
    ensures
        !w.holds(t),
{
}

} // verus!
