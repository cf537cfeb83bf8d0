//! Points in time, how they are written, and what lies between them.
//!
//! The calendar is chrono's: it runs from the year -262143 to the year 262142,
//! and a leap second is the second before it with a thousand million
//! nanoseconds more.
use vstd::prelude::*;
use vstd::string::*;

verus! {

/// The first second of the calendar.
pub const FIRST_SECOND: i64 = -8_334_601_228_800;

/// The last second of the calendar.
pub const LAST_SECOND: i64 = 8_210_266_876_799;

/// The first second of the year 0.
pub const YEAR_ZERO: i64 = -62_167_219_200;

/// The last second of the year 9999.
pub const YEAR_9999_END: i64 = 253_402_300_799;

pub const NANOS_PER_SECOND: u32 = 1_000_000_000;

pub const SECONDS_PER_HOUR: i64 = 3_600;

pub const SECONDS_PER_DAY: i64 = 86_400;

/// The most seconds that a time span can have.
pub const LONGEST_SPAN: i64 = 9_223_372_036_854_775;

/// A point in time in UTC: seconds since 1970, and nanoseconds into the second.
#[derive(Clone, Copy, Debug, PartialEq, Eq, Structural)]
pub struct UtcTime {
    pub secs: i64,
    pub nanos: u32,
}

/// A point in time together with the offset from UTC in which it is written.
#[derive(Clone, Copy, Debug, PartialEq, Eq, Structural)]
pub struct OffsetTime {
    pub utc: UtcTime,
    pub offset: i32,
}

/// A span of time in whole days, whole hours and whole minutes, each rounded
/// towards zero.
#[derive(Clone, Copy, Debug, PartialEq, Eq, Structural)]
pub struct Elapsed {
    pub days: i64,
    pub hours: i64,
    pub minutes: i64,
}

/// Why a date could not be moved.
#[derive(Clone, Copy, Debug, PartialEq, Eq, Structural)]
pub enum DateError {
    /// The text is no RFC 3339 date and time.
    Unreadable,
    /// The new date is outside of the calendar.
    OutOfRange,
}

/// The quotient of two integers, rounded towards zero.
pub open spec fn rounded_to_zero(n: int, unit: int) -> int {
    if n >= 0 {
        n / unit
    } else {
        -((-n) / unit)
    }
}

impl UtcTime {
    /// Whether the point lies in the calendar.
    pub open spec fn valid(self) -> bool {
        &&& FIRST_SECOND <= self.secs <= LAST_SECOND
        &&& self.nanos < 2 * NANOS_PER_SECOND
        &&& self.is_leap() ==> self.secs % 60 == 59
    }

    pub open spec fn is_leap(self) -> bool {
        self.nanos >= NANOS_PER_SECOND
    }

    /// The order of points in time.
    pub open spec fn precedes(self, other: UtcTime) -> bool {
        self.secs < other.secs || (self.secs == other.secs && self.nanos < other.nanos)
    }

    /// The second that lies `seconds` away. A leap second ends when it is left:
    /// forwards it counts as the second before it, backwards as the one after.
    pub open spec fn second_after(self, seconds: int) -> int {
        if self.is_leap() && seconds < 0 {
            self.secs + 1 + seconds
        } else {
            self.secs + seconds
        }
    }

    /// Whether the point `seconds` away lies in the calendar.
    pub open spec fn reaches(self, seconds: int) -> bool {
        &&& -LONGEST_SPAN <= seconds <= LONGEST_SPAN
        &&& FIRST_SECOND <= self.second_after(seconds) <= LAST_SECOND
    }

    /// The point in time `seconds` away.
    pub open spec fn after(self, seconds: int) -> UtcTime {
        UtcTime {
            secs: self.second_after(seconds) as i64,
            nanos: if self.is_leap() && seconds != 0 {
                (self.nanos - NANOS_PER_SECOND) as u32
            } else {
                self.nanos
            },
        }
    }

    /// The second of the UTC day.
    pub open spec fn second_of_day(self) -> int {
        self.secs as int % 86_400
    }

    /// The nanoseconds since an earlier point. A leap second counts too where
    /// it is one of the two points and the other stands later in its day.
    pub open spec fn nanos_since(self, earlier: UtcTime) -> int {
        let leap_seconds: int = if self.second_of_day() > earlier.second_of_day()
            && earlier.is_leap() {
            1
        } else if self.second_of_day() < earlier.second_of_day() && self.is_leap() {
            -1
        } else {
            0
        };
        (self.secs - earlier.secs + leap_seconds) * 1_000_000_000 + (self.nanos - earlier.nanos)
    }

    /// The span since an earlier point, in whole units of `seconds` seconds.
    pub open spec fn units_since(self, earlier: UtcTime, seconds: int) -> int {
        rounded_to_zero(self.nanos_since(earlier), seconds * 1_000_000_000)
    }

    /// Whether the year has four digits.
    pub open spec fn has_four_digit_year(self) -> bool {
        YEAR_ZERO <= self.secs <= YEAR_9999_END
    }

    /// The text of the point in time, in UTC.
    pub open spec fn text(self) -> Seq<char> {
        rfc3339_text(self.secs, self.nanos, 0)
    }
}

impl OffsetTime {
    /// Whether chrono can hold the value.
    pub open spec fn valid(self) -> bool {
        &&& self.utc.valid()
        &&& -86_400 < self.offset < 86_400
    }

    /// Whether RFC 3339 can express the value: the local year has four digits,
    /// and the offset is in whole minutes.
    pub open spec fn has_rfc3339_form(self) -> bool {
        &&& self.valid()
        &&& YEAR_ZERO <= self.utc.secs + self.offset <= YEAR_9999_END
        &&& self.offset % 60 == 0
    }
}

/// What `chrono::DateTime::parse_from_rfc3339` reads in a text: the second and
/// the nanosecond in UTC, and the offset from UTC in seconds; `None` where it
/// returns an error.
pub uninterp spec fn rfc3339_reading(text: Seq<char>) -> Option<(i64, u32, i32)>;

/// What `chrono::DateTime::to_rfc3339` writes for a second and a nanosecond in
/// UTC at an offset in seconds.
pub uninterp spec fn rfc3339_text(secs: i64, nanos: u32, offset: i32) -> Seq<char>;

/// What `chrono::DateTime::to_rfc3339_opts` writes for a point in UTC with
/// whole seconds and `Z` for the offset.
pub uninterp spec fn rfc3339_seconds_text(secs: i64, nanos: u32) -> Seq<char>;

/// The point in time that a text gives, if it gives one.
pub open spec fn moment_in(text: Seq<char>) -> Option<UtcTime> {
    match rfc3339_reading(text) {
        Some((secs, nanos, _offset)) => Some(UtcTime { secs, nanos }),
        None => None,
    }
}

/// Whether what a text reads as, if anything, is a value that RFC 3339 can
/// express.
pub open spec fn reads_rfc3339_form(text: Seq<char>) -> bool {
    rfc3339_reading(text) matches Some((secs, nanos, offset)) ==> (OffsetTime {
        utc: UtcTime { secs, nanos },
        offset,
    }).has_rfc3339_form()
}

/// `chrono::Utc::now`. The clock decides what it returns: a point in the
/// calendar, not before 1970, and never a leap second. It panics where the
/// system clock stands before 1970 or after the calendar's end.
#[verifier::external_body]
fn clock_time() -> (r: UtcTime)
    ensures
        r.valid(),
        r.secs >= 0,
        !r.is_leap(),
{
    let now = chrono::Utc::now();
    UtcTime { secs: now.timestamp(), nanos: now.timestamp_subsec_nanos() }
}

/// `chrono::DateTime::parse_from_rfc3339`. What it reads has a name. A value
/// that it reads is one that RFC 3339 can express: a year of four digits, and
/// an offset of less than a day in whole minutes.
#[verifier::external_body]
fn read_rfc3339(text: &str) -> (r: Option<OffsetTime>)
    ensures
        match r {
            Some(t) => rfc3339_reading(text@) == Some((t.utc.secs, t.utc.nanos, t.offset)),
            None => rfc3339_reading(text@) is None,
        },
        r matches Some(t) ==> t.has_rfc3339_form(),
{
    let t = chrono::DateTime::parse_from_rfc3339(text).ok()?;
    let utc = UtcTime { secs: t.timestamp(), nanos: t.timestamp_subsec_nanos() };
    Some(OffsetTime { utc, offset: t.offset().local_minus_utc() })
}

/// `chrono::DateTime::to_rfc3339`. What it writes has a name, and reads back
/// as what was written wherever RFC 3339 can express the value.
#[verifier::external_body]
fn write_rfc3339(t: OffsetTime) -> (r: String)
    requires
        t.valid(),
    ensures
        r@ == rfc3339_text(t.utc.secs, t.utc.nanos, t.offset),
        t.has_rfc3339_form() ==> rfc3339_reading(r@) == Some((t.utc.secs, t.utc.nanos, t.offset)),
{
    let offset = chrono::FixedOffset::east_opt(t.offset).unwrap();
    let utc = chrono::DateTime::from_timestamp(t.utc.secs, t.utc.nanos).unwrap();
    utc.with_timezone(&offset).to_rfc3339()
}

/// `chrono::DateTime::to_rfc3339_opts` in UTC, with whole seconds and `Z`.
/// What it writes has a name, and twenty characters in a year of four digits.
#[verifier::external_body]
fn write_rfc3339_seconds(t: UtcTime) -> (r: String)
    requires
        t.valid(),
    ensures
        r@ == rfc3339_seconds_text(t.secs, t.nanos),
        t.has_four_digit_year() ==> r@.len() == 20,
{
    let utc = chrono::DateTime::from_timestamp(t.secs, t.nanos).unwrap();
    utc.to_rfc3339_opts(chrono::SecondsFormat::Secs, true)
}

/// Adding a `chrono::TimeDelta` of whole seconds to a `chrono::DateTime`. It
/// moves the point by that many seconds; a leap second counts as an ordinary
/// one as soon as it is left.
#[verifier::external_body]
fn add_seconds(t: UtcTime, seconds: i64) -> (r: UtcTime)
    requires
        t.valid(),
        t.reaches(seconds as int),
    ensures
        r == t.after(seconds as int),
{
    let start = chrono::DateTime::from_timestamp(t.secs, t.nanos).unwrap();
    let moved = start + chrono::TimeDelta::seconds(seconds);
    UtcTime { secs: moved.timestamp(), nanos: moved.timestamp_subsec_nanos() }
}

/// The difference of two `chrono::DateTime` values, and its `num_days`,
/// `num_hours` and `num_minutes`. Each is the span between the points,
/// rounded towards zero.
#[verifier::external_body]
fn subtract(later: UtcTime, earlier: UtcTime) -> (r: Elapsed)
    requires
        later.valid(),
        earlier.valid(),
    ensures
        r.days == later.units_since(earlier, 86_400),
        r.hours == later.units_since(earlier, 3_600),
        r.minutes == later.units_since(earlier, 60),
{
    let end = chrono::DateTime::from_timestamp(later.secs, later.nanos).unwrap();
    let start = chrono::DateTime::from_timestamp(earlier.secs, earlier.nanos).unwrap();
    let span = end - start;
    Elapsed { days: span.num_days(), hours: span.num_hours(), minutes: span.num_minutes() }
}

/// The current time.
pub fn utc_now() -> (r: UtcTime)
    ensures
        r.valid(),
        r.secs >= 0,
        !r.is_leap(),
{
    clock_time()
}

impl UtcTime {
    /// Whether `self` comes before `other`.
    pub fn is_before(&self, other: &UtcTime) -> (r: bool)
        ensures
            r == self.precedes(*other),
    {
        self.secs < other.secs || (self.secs == other.secs && self.nanos < other.nanos)
    }

    /// Whether the point `seconds` away lies in the calendar.
    pub fn can_move(&self, seconds: i64) -> (r: bool)
        requires
            self.valid(),
        ensures
            r == self.reaches(seconds as int),
    {
        if seconds < -LONGEST_SPAN || seconds > LONGEST_SPAN {
            return false;
        }
        let second: i64 = if self.nanos >= NANOS_PER_SECOND && seconds < 0 {
            self.secs + 1 + seconds
        } else {
            self.secs + seconds
        };
        FIRST_SECOND <= second && second <= LAST_SECOND
    }

    /// The point in time `seconds` away.
    pub fn moved(&self, seconds: i64) -> (r: UtcTime)
        requires
            self.valid(),
            self.reaches(seconds as int),
        ensures
            r == self.after(seconds as int),
            r.valid(),
    {
        proof {
            lemma_after_is_valid(*self, seconds as int);
        }
        add_seconds(*self, seconds)
    }

    /// The span since an earlier point.
    pub fn since(&self, earlier: &UtcTime) -> (r: Elapsed)
        requires
            self.valid(),
            earlier.valid(),
        ensures
            r.days == self.units_since(*earlier, 86_400),
            r.hours == self.units_since(*earlier, 3_600),
            r.minutes == self.units_since(*earlier, 60),
    {
        subtract(*self, *earlier)
    }

    /// The RFC 3339 text of the point in time, in UTC. It reads back as the
    /// same point where the year has four digits.
    pub fn to_rfc3339(&self) -> (r: String)
        requires
            self.valid(),
        ensures
            r@ == self.text(),
            self.has_four_digit_year() ==> moment_in(r@) == Some(*self),
    {
        write_rfc3339(OffsetTime { utc: *self, offset: 0 })
    }

    /// The RFC 3339 text of the point in time in UTC, in whole seconds.
    pub fn to_rfc3339_seconds(&self) -> (r: String)
        requires
            self.valid(),
        ensures
            r@ == rfc3339_seconds_text(self.secs, self.nanos),
            self.has_four_digit_year() ==> r@.len() == 20,
    {
        write_rfc3339_seconds(*self)
    }
}

proof fn lemma_after_is_valid(t: UtcTime, seconds: int)
    requires
        t.valid(),
        t.reaches(seconds),
    ensures
        t.after(seconds).valid(),
{
}

/// Reads an RFC 3339 date and time as a point in UTC.
pub fn parse_rfc3339(s: &str) -> (r: Option<UtcTime>)
    ensures
        r == moment_in(s@),
        r matches Some(t) ==> t.valid() && YEAR_ZERO - 86_400 < t.secs < YEAR_9999_END + 86_400,
        reads_rfc3339_form(s@),
{
    match read_rfc3339(s) {
        Some(t) => Some(t.utc),
        None => None,
    }
}

/// Moves a date by whole days, and writes it at the same offset.
pub fn plus_days_from(t: OffsetTime, days: i64) -> (r: String)
    requires
        t.valid(),
        t.utc.reaches(days * SECONDS_PER_DAY),
    ensures
        r@ == ({
            let moved = t.utc.after(days * SECONDS_PER_DAY);
            rfc3339_text(moved.secs, moved.nanos, t.offset)
        }),
        ({
            let moved = OffsetTime { utc: t.utc.after(days * SECONDS_PER_DAY), offset: t.offset };
            moved.has_rfc3339_form() ==> rfc3339_reading(r@) == Some(
                (moved.utc.secs, moved.utc.nanos, moved.offset),
            )
        }),
{
    let moved: UtcTime = t.utc.moved(days * SECONDS_PER_DAY);
    write_rfc3339(OffsetTime { utc: moved, offset: t.offset })
}

/// Moves an RFC 3339 date by whole days, and writes it at the same offset.
pub fn plus_days(iso: &str, days: i64) -> (r: Result<String, DateError>)
    ensures
        match rfc3339_reading(iso@) {
            None => r == Err::<String, DateError>(DateError::Unreadable),
            Some((secs, nanos, offset)) => {
                let t = UtcTime { secs, nanos };
                let moved = t.after(days * SECONDS_PER_DAY);
                if t.reaches(days * SECONDS_PER_DAY) {
                    r matches Ok(text) && text@ == rfc3339_text(moved.secs, moved.nanos, offset)
                        && ((OffsetTime { utc: moved, offset }).has_rfc3339_form()
                        ==> rfc3339_reading(text@) == Some((moved.secs, moved.nanos, offset)))
                } else {
                    r == Err::<String, DateError>(DateError::OutOfRange)
                }
            },
        },
        reads_rfc3339_form(iso@),
{
    match read_rfc3339(iso) {
        None => Err(DateError::Unreadable),
        Some(t) => {
            if days < -LONGEST_SPAN / SECONDS_PER_DAY || days > LONGEST_SPAN / SECONDS_PER_DAY {
                return Err(DateError::OutOfRange);
            }
            if t.utc.can_move(days * SECONDS_PER_DAY) {
                Ok(plus_days_from(t, days))
            } else {
                Err(DateError::OutOfRange)
            }
        },
    }
}

/// A point that lies ahead comes later.
pub proof fn law_moving_ahead_is_later(t: UtcTime, seconds: int)
    requires
        t.valid(),
        t.reaches(seconds),
        seconds > 0,
    ensures
        t.precedes(t.after(seconds)),
{
}

/// A point that was moved is as far away as it was moved, leap seconds aside.
pub proof fn law_moved_point_is_that_far_away(t: UtcTime, seconds: int)
    requires
        t.valid(),
        t.reaches(seconds),
        !t.is_leap(),
    ensures
        t.after(seconds).nanos_since(t) == seconds * 1_000_000_000,
{
}

/// Two moves in a row are one move by their sum, leap seconds aside.
pub proof fn law_moves_add_up(t: UtcTime, first: int, second: int)
    requires
        t.valid(),
        t.reaches(first),
        t.reaches(first + second),
        !t.is_leap(),
    ensures
        t.after(first).after(second) == t.after(first + second),
{
}

/// Of two points that differ, one comes first.
pub proof fn law_time_is_ordered(a: UtcTime, b: UtcTime, c: UtcTime)
    ensures
        !a.precedes(a),
        a != b ==> a.precedes(b) != b.precedes(a),
        a.precedes(b) && b.precedes(c) ==> a.precedes(c),
{
}

/// The point in time that a text gives is the one that was read in it, in UTC,
/// whatever the offset; a text in which nothing is read gives none.
pub proof fn law_moment_is_what_was_read(text: Seq<char>)
    ensures
        rfc3339_reading(text) matches Some((secs, nanos, _offset)) ==> (moment_in(text) matches Some(
            t,
        ) && t.secs == secs && t.nanos == nanos),
        rfc3339_reading(text) is None ==> moment_in(text) is None,
{
}

/// The text of a point is what is written for its second and its nanosecond
/// at no offset from UTC.
pub proof fn law_text_is_written_in_utc(t: UtcTime)
    ensures
        t.text() == rfc3339_text(t.secs, t.nanos, 0),
{
}

/// Points are ordered by their seconds, and by their nanoseconds where the
/// seconds are the same.
pub proof fn law_order_goes_by_second_and_nanosecond(a: UtcTime, b: UtcTime)
    ensures
        a.secs < b.secs ==> a.precedes(b),
        a.secs > b.secs ==> !a.precedes(b),
        a.secs == b.secs ==> (a.precedes(b) <==> a.nanos < b.nanos),
{
}

/// A point that is no leap second moves by exactly the seconds asked for, and
/// keeps its nanoseconds. It can be moved as far as the calendar goes.
pub proof fn law_move_adds_the_seconds(t: UtcTime, seconds: int)
    requires
        t.valid(),
        !t.is_leap(),
    ensures
        t.reaches(seconds) <==> -8_334_601_228_800 <= t.secs + seconds <= 8_210_266_876_799,
        t.reaches(seconds) ==> t.after(seconds).secs == t.secs + seconds,
        t.after(seconds).nanos == t.nanos,
{
}

/// The nanoseconds between two points that are no leap seconds are those of
/// their difference.
pub proof fn law_span_is_the_difference(later: UtcTime, earlier: UtcTime)
    requires
        later.nanos < 1_000_000_000,
        earlier.nanos < 1_000_000_000,
    ensures
        later.nanos_since(earlier) == (later.secs - earlier.secs) * 1_000_000_000 + later.nanos
            - earlier.nanos,
{
}

/// A span has as many whole days, hours and minutes as fit into it; what is
/// left over is less than one, and has the same sign.
pub proof fn law_units_are_whole(later: UtcTime, earlier: UtcTime)
    ensures
        ({
            let n = later.nanos_since(earlier);
            let days = later.units_since(earlier, 86_400);
            let hours = later.units_since(earlier, 3_600);
            let minutes = later.units_since(earlier, 60);
            &&& n >= 0 ==> 0 <= n - days * 86_400_000_000_000 < 86_400_000_000_000
            &&& n < 0 ==> -86_400_000_000_000 < n - days * 86_400_000_000_000 <= 0
            &&& n >= 0 ==> 0 <= n - hours * 3_600_000_000_000 < 3_600_000_000_000
            &&& n < 0 ==> -3_600_000_000_000 < n - hours * 3_600_000_000_000 <= 0
            &&& n >= 0 ==> 0 <= n - minutes * 60_000_000_000 < 60_000_000_000
            &&& n < 0 ==> -60_000_000_000 < n - minutes * 60_000_000_000 <= 0
        }),
{
}

/// A year has four digits from the year 0 to the year 9999, and RFC 3339 can
/// express a value whose local year has, at an offset in whole minutes.
pub proof fn law_rfc3339_has_years_of_four_digits(t: OffsetTime)
    ensures
        t.utc.has_four_digit_year() <==> -62_167_219_200 <= t.utc.secs <= 253_402_300_799,
        t.has_rfc3339_form() <==> t.valid() && -62_167_219_200 <= t.utc.secs + t.offset
            <= 253_402_300_799 && t.offset % 60 == 0,
{
}

/// A day has 86400 seconds, and an hour 3600.
pub proof fn law_days_and_hours_have_their_seconds()
    ensures
        SECONDS_PER_DAY == 86_400,
        SECONDS_PER_HOUR == 3_600,
{
}

/// What lies in the calendar, and what a leap second is.
pub proof fn law_calendar_has_its_bounds(t: UtcTime)
    ensures
        t.is_leap() <==> t.nanos >= 1_000_000_000,
        t.valid() <==> -8_334_601_228_800 <= t.secs <= 8_210_266_876_799 && t.nanos
            < 2_000_000_000 && (t.nanos >= 1_000_000_000 ==> t.secs % 60 == 59),
{
}

/// A leap second that is moved lands on an ordinary second: ahead as if it were
/// the second before it, and back as if it were the one behind it.
pub proof fn law_leap_second_is_left_when_moved(t: UtcTime, seconds: int)
    requires
        t.valid(),
        t.is_leap(),
    ensures
        t.reaches(seconds) <==> -8_334_601_228_800 <= t.secs + seconds + (if seconds < 0 {
            1int
        } else {
            0int
        }) <= 8_210_266_876_799,
        t.after(0) == t,
        seconds > 0 && t.reaches(seconds) ==> t.after(seconds).secs == t.secs + seconds,
        seconds < 0 && t.reaches(seconds) ==> t.after(seconds).secs == t.secs + 1 + seconds,
        seconds != 0 ==> t.after(seconds).nanos == t.nanos - 1_000_000_000,
{
}

/// A leap second adds a second to the span to a point that stands later in the
/// day than it, and none to the span to any other point.
pub proof fn law_leap_second_counts_in_its_day(leap: UtcTime, other: UtcTime)
    requires
        leap.valid(),
        leap.is_leap(),
        other.valid(),
        !other.is_leap(),
    ensures
        ({
            let plain = (other.secs - leap.secs) * 1_000_000_000 + other.nanos - leap.nanos;
            let stands_later = other.secs as int % 86_400 > leap.secs as int % 86_400;
            &&& stands_later ==> other.nanos_since(leap) == plain + 1_000_000_000
            &&& !stands_later ==> other.nanos_since(leap) == plain
            &&& leap.nanos_since(other) == -other.nanos_since(leap)
        }),
{
}

/// What is read in a text lies in the calendar, in a local year of four digits,
/// at an offset of less than a day in whole minutes.
pub proof fn law_reading_has_rfc3339_form(text: Seq<char>, secs: i64, nanos: u32, offset: i32)
    requires
        reads_rfc3339_form(text),
        rfc3339_reading(text) == Some((secs, nanos, offset)),
    ensures
        (UtcTime { secs, nanos }).valid(),
        -62_167_219_200 <= secs + offset <= 253_402_300_799,
        -86_400 < offset < 86_400,
        offset % 60 == 0,
{
}

} // verus!
