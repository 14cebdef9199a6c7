//! Points in time and how they are shown on a clock.

use vstd::prelude::*;

use crate::text;

verus! {

/// The earliest second that a [`UtcTime`] can name: the first of the year -262143.
pub const MIN_SECS: i64 = -8_334_601_228_800;

/// The latest second that a [`UtcTime`] can name: the last of the year 262142.
pub const MAX_SECS: i64 = 8_210_266_876_799;

pub const NANOS_PER_SEC: u32 = 1_000_000_000;

/// A point in UTC: seconds since 1970 that do not count leap seconds, and nanoseconds into the
/// second. In the last second of a minute the nanoseconds may run on for one second more: that
/// is a leap second.
#[derive(Debug, Clone, Copy, PartialEq, Eq, Structural)]
pub struct UtcTime {
    pub secs: i64,
    pub nanos: u32,
}

impl UtcTime {
    pub open spec fn valid(self) -> bool {
        &&& MIN_SECS <= self.secs <= MAX_SECS
        &&& self.nanos < 2 * NANOS_PER_SEC
        &&& self.is_leap() ==> self.secs as int % 60 == 59
    }

    pub open spec fn is_leap(self) -> bool {
        self.nanos >= NANOS_PER_SEC
    }

    /// Nanoseconds since 1970; a leap second counts as the second before it.
    pub open spec fn total_nanos(self) -> int {
        self.secs * NANOS_PER_SEC + self.nanos as int % NANOS_PER_SEC as int
    }

    /// The point `nanos` into the second `secs`, if there is one.
    pub fn new(secs: i64, nanos: u32) -> (r: Option<UtcTime>)
        ensures
            match r {
                Some(t) => t.valid() && t.secs == secs && t.nanos == nanos,
                None => !(UtcTime { secs, nanos }).valid(),
            },
    {
        if secs < MIN_SECS || secs > MAX_SECS || nanos >= 2 * NANOS_PER_SEC {
            return None;
        }
        let into_minute: i64 = (secs - MIN_SECS) % 60;
        assert(MIN_SECS as int % 60 == 0);
        if nanos >= NANOS_PER_SEC && into_minute != 59 {
            return None;
        }
        Some(UtcTime { secs, nanos })
    }
}

/// `n` as two decimal digits.
pub open spec fn two_digits(n: int) -> Seq<char> {
    seq![text::digit_char(n / 10 % 10), text::digit_char(n % 10)]
}

/// The hour of the day at `secs`.
pub open spec fn hour_of(secs: int) -> int {
    secs % 86_400 / 3_600
}

/// The minute of the hour at `secs`.
pub open spec fn minute_of(secs: int) -> int {
    secs % 3_600 / 60
}

/// `HH:MM` at `secs`.
pub open spec fn hh_mm(secs: int) -> Seq<char> {
    two_digits(hour_of(secs)) + seq![':'] + two_digits(minute_of(secs))
}

/// `HH:MM:SS` at `t`; a leap second is second sixty.
pub open spec fn hh_mm_ss(t: UtcTime) -> Seq<char> {
    let second = t.secs as int % 60 + if t.is_leap() {
        1int
    } else {
        0int
    };
    hh_mm(t.secs as int) + seq![':'] + two_digits(second)
}

/// `chrono::DateTime::format` with `%H:%M:%S`: hour, minute and second of a UTC time, two digits
/// each.
#[verifier::external_body]
pub(crate) fn utc_clock(t: UtcTime) -> (r: String)
    requires
        t.valid(),
    ensures
        r@ == hh_mm_ss(t),
{
    let at = chrono::DateTime::from_timestamp(t.secs, t.nanos).unwrap();
    at.format("%H:%M:%S").to_string()
}

/// Whether a step of `ms` milliseconds from `t` begins and ends in the same leap second.
pub open spec fn stays_in_leap_second(t: UtcTime, ms: int) -> bool {
    t.is_leap() && NANOS_PER_SEC <= t.nanos + ms * 1_000_000 < 2 * NANOS_PER_SEC
}

/// Where a step of `ms` milliseconds from `t` ends, in nanoseconds since 1970. A step that leaves
/// a leap second forward counts from the second before it; one that leaves it backward counts it
/// as a second of its own.
pub open spec fn sum_nanos(t: UtcTime, ms: int) -> int {
    let leap = if t.is_leap() && t.nanos + ms * 1_000_000 >= 2 * NANOS_PER_SEC {
        NANOS_PER_SEC as int
    } else {
        0
    };
    t.secs * NANOS_PER_SEC + t.nanos + ms * 1_000_000 - leap
}

/// Whether a step of `ms` milliseconds from `t` stays in the range of [`UtcTime`].
pub open spec fn can_add_millis(t: UtcTime, ms: int) -> bool {
    stays_in_leap_second(t, ms) || MIN_SECS * NANOS_PER_SEC <= sum_nanos(t, ms) < (MAX_SECS + 1)
        * NANOS_PER_SEC
}

/// Where a step of `ms` milliseconds from `t` ends.
pub open spec fn utc_sum(t: UtcTime, ms: int) -> UtcTime {
    if stays_in_leap_second(t, ms) {
        UtcTime { secs: t.secs, nanos: (t.nanos + ms * 1_000_000) as u32 }
    } else {
        UtcTime {
            secs: (sum_nanos(t, ms) / NANOS_PER_SEC as int) as i64,
            nanos: (sum_nanos(t, ms) % NANOS_PER_SEC as int) as u32,
        }
    }
}

/// `chrono::DateTime + chrono::Duration`, the duration in milliseconds: the arithmetic sum, but
/// that a step within a leap second stays in it and a step out of one ends outside.
#[verifier::external_body]
pub(crate) fn add_millis(t: UtcTime, ms: i64) -> (r: UtcTime)
    requires
        t.valid(),
        can_add_millis(t, ms as int),
    ensures
        r == utc_sum(t, ms as int),
{
    let at = chrono::DateTime::from_timestamp(t.secs, t.nanos).unwrap();
    let sum = at + chrono::Duration::milliseconds(ms);
    UtcTime { secs: sum.timestamp(), nanos: sum.timestamp_subsec_nanos() }
}

/// Where a step of `ms` milliseconds ends is a valid time.
pub proof fn lemma_sum_is_valid(t: UtcTime, ms: int)
    requires
        t.valid(),
        can_add_millis(t, ms),
    ensures
        utc_sum(t, ms).valid(),
        !stays_in_leap_second(t, ms) ==> {
            &&& utc_sum(t, ms).secs == sum_nanos(t, ms) / 1_000_000_000
            &&& utc_sum(t, ms).nanos == sum_nanos(t, ms) % 1_000_000_000
        },
{
}

/// Whether a step of `ms` milliseconds from `t` stays in the range of [`UtcTime`].
pub fn fits_millis(t: UtcTime, ms: i64) -> (r: bool)
    requires
        t.valid(),
    ensures
        r == can_add_millis(t, ms as int),
{
    let into: i128 = t.nanos as i128 + ms as i128 * 1_000_000;
    let leap: i128 = if t.nanos >= NANOS_PER_SEC {
        if 1_000_000_000 <= into && into < 2_000_000_000 {
            return true;
        }
        if into >= 2_000_000_000 {
            1_000_000_000
        } else {
            0
        }
    } else {
        0
    };
    let nanos: i128 = t.secs as i128 * 1_000_000_000 + into - leap;
    nanos >= -8_334_601_228_800_000_000_000 && nanos < 8_210_266_876_800_000_000_000
}

/// The zone that is used where none is configured.
pub const DEFAULT_ZONE: &'static str = "Europe/Rome";

/// Whether `chrono_tz` knows a zone of that name.
pub uninterp spec fn zone_known(name: Seq<char>) -> bool;

/// Seconds east of UTC that `chrono_tz` gives for a zone at a UTC second.
pub uninterp spec fn zone_offset(name: Seq<char>, secs: int) -> int;

/// `chrono_tz::Tz::from_str`: whether `name` is the name of a zone of the IANA database.
/// `Europe/Rome` is one.
#[verifier::external_body]
pub(crate) fn is_zone_name(name: &str) -> (r: bool)
    ensures
        r == zone_known(name@),
        name@ == "Europe/Rome"@ ==> r,
{
    name.parse::<chrono_tz::Tz>().is_ok()
}

/// `chrono::TimeZone::from_utc_datetime` on a zone of `chrono_tz`, then `chrono::DateTime::format`
/// with `%H:%M`: hour and minute that the zone's clocks show, two digits each.
#[verifier::external_body]
pub(crate) fn local_clock(zone: &str, t: UtcTime) -> (r: String)
    requires
        zone_known(zone@),
        t.valid(),
    ensures
        r@ == hh_mm(t.secs + zone_offset(zone@, t.secs as int)),
{
    let tz: chrono_tz::Tz = zone.parse().unwrap();
    let at = chrono::DateTime::from_timestamp(t.secs, t.nanos).unwrap();
    chrono::TimeZone::from_utc_datetime(&tz, &at.naive_utc()).format("%H:%M").to_string()
}

// ---------------------------------------------------------------------------
// Laws
// ---------------------------------------------------------------------------

/// What a clock shows can be read back: two digits each for the hour of the day and the minute of
/// the hour, with a colon between them, name the minute that the second falls in.
pub proof fn law_clock_shows_hour_and_minute(secs: int)
    ensures
        ({
            let shown = hh_mm(secs);
            let hour = 10 * (shown[0] as u32 - 48) + (shown[1] as u32 - 48);
            let minute = 10 * (shown[3] as u32 - 48) + (shown[4] as u32 - 48);
            &&& shown.len() == 5
            &&& shown[2] == ':'
            &&& forall|i: int| 0 <= i < 5 && i != 2 ==> '0' <= (#[trigger] shown[i]) <= '9'
            &&& 0 <= hour < 24
            &&& 0 <= minute < 60
            &&& 0 <= secs % 86_400 - (hour * 3_600 + minute * 60) < 60
        }),
{
    let shown = hh_mm(secs);
    let hour = hour_of(secs);
    let minute = minute_of(secs);
    assert(0 <= hour < 24);
    assert(0 <= minute < 60);
    lemma_two_digits(hour);
    lemma_two_digits(minute);
    assert(shown[0] == two_digits(hour)[0] && shown[1] == two_digits(hour)[1]);
    assert(shown[3] == two_digits(minute)[0] && shown[4] == two_digits(minute)[1]);
    assert(secs % 86_400 % 3_600 == secs % 3_600);
    assert forall|i: int| 0 <= i < 5 && i != 2 implies '0' <= (#[trigger] shown[i]) <= '9' by {
        assert(i == 0 || i == 1 || i == 3 || i == 4);
    }
}

/// Two digits are worth the number that they write.
proof fn lemma_two_digits(n: int)
    requires
        0 <= n < 100,
    ensures
        two_digits(n).len() == 2,
        10 * (two_digits(n)[0] as u32 - 48) + (two_digits(n)[1] as u32 - 48) == n,
        '0' <= two_digits(n)[0] <= '9',
        '0' <= two_digits(n)[1] <= '9',
{
    let tens = n / 10 % 10;
    let ones = n % 10;
    assert(text::digit_char(tens) as u32 == 48 + tens);
    assert(text::digit_char(ones) as u32 == 48 + ones);
}

/// The clock with seconds shows hour, minute and second of the day; a leap second is shown as
/// second sixty of its minute.
pub proof fn law_clock_shows_the_second(t: UtcTime)
    requires
        t.valid(),
    ensures
        ({
            let shown = hh_mm_ss(t);
            let second = 10 * (shown[6] as u32 - 48) + (shown[7] as u32 - 48);
            &&& shown.len() == 8
            &&& shown.take(5) == hh_mm(t.secs as int)
            &&& shown[5] == ':'
            &&& '0' <= shown[6] <= '9' && '0' <= shown[7] <= '9'
            &&& t.nanos < 1_000_000_000 ==> second == t.secs as int % 60
            &&& t.nanos >= 1_000_000_000 ==> second == 60
        }),
{
    let second = t.secs as int % 60 + if t.is_leap() {
        1int
    } else {
        0int
    };
    lemma_two_digits(second);
    law_clock_shows_hour_and_minute(t.secs as int);
    let shown = hh_mm_ss(t);
    assert(shown.take(5) =~= hh_mm(t.secs as int));
    assert(shown[6] == two_digits(second)[0] && shown[7] == two_digits(second)[1]);
}

/// A step from a time outside leap seconds takes exactly its length, and steps add up.
pub proof fn law_steps_add_up(t: UtcTime, a: int, b: int)
    requires
        t.valid(),
        t.nanos < 1_000_000_000,
        can_add_millis(t, a),
        can_add_millis(t, a + b),
    ensures
        utc_sum(t, 0) == t,
        utc_sum(t, a).secs * 1_000_000_000 + utc_sum(t, a).nanos == t.secs * 1_000_000_000
            + t.nanos + a * 1_000_000,
        utc_sum(t, a).nanos < 1_000_000_000,
        utc_sum(utc_sum(t, a), b) == utc_sum(t, a + b),
{
    lemma_sum_is_valid(t, a);
    lemma_sum_is_valid(t, a + b);
}

/// Which times there are: from the first second of the year -262143 to the last of 262142, with
/// less than a second of nanoseconds, or less than two where a minute ends. A step from a time
/// outside leap seconds is possible exactly where it ends in that range.
pub proof fn law_which_times_there_are(t: UtcTime, ms: int)
    ensures
        t.valid() <==> {
            &&& -8_334_601_228_800 <= t.secs <= 8_210_266_876_799
            &&& t.nanos < 1_000_000_000 || (t.nanos < 2_000_000_000 && t.secs as int % 60 == 59)
        },
        t.valid() && t.nanos < 1_000_000_000 ==> (can_add_millis(t, ms) <==> {
            let end = t.secs * 1_000_000_000 + t.nanos + ms * 1_000_000;
            -8_334_601_228_800_000_000_000 <= end < 8_210_266_876_800_000_000_000
        }),
{
}

} // verus!
