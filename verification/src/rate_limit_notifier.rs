//! User notification for a turn that is on hold because of a rate limit.
//!
//! When a turn is deferred until the upstream quota resets, the sender would see nothing at all.
//! This module writes the short notice that is sent before the turn is put on hold.

use vstd::prelude::*;

use crate::clock;
use crate::clock::UtcTime;
use crate::text;

verus! {

/// The notice that is used where none is configured. `{reset_time}` stands for the clock time at
/// which the quota resets.
pub const DEFAULT_TEMPLATE: &'static str =
    "⏸️ Limite quota raggiunto. Reset alle {reset_time}. Ti rispondo dopo.";

/// The text in a kernel error that announces the length of the hold, in milliseconds.
pub const DEFER_MARKER: &'static str = "[rate_limit_defer_ms]=";

/// What stands for the clock time in a template.
pub const RESET_TIME: &'static str = "{reset_time}";

/// The shortest hold, in milliseconds, that is worth a notice.
pub const MIN_NOTIFY_MS: u64 = 1_000;

/// The ASCII digits at the beginning of `s`.
pub open spec fn leading_digits(s: Seq<char>) -> Seq<char>
    decreases s.len(),
{
    if s.len() > 0 && text::is_digit(s.first()) {
        seq![s.first()] + leading_digits(s.drop_first())
    } else {
        Seq::empty()
    }
}

/// The hold that an error announces: the number that follows the first marker.
pub open spec fn defer_ms_of(err: Seq<char>) -> Option<nat> {
    match text::first_at(err, DEFER_MARKER@, 0) {
        Some(i) => text::decimal_within(
            leading_digits(err.skip(i + DEFER_MARKER@.len())),
            u64::MAX as nat,
        ),
        None => None,
    }
}

/// The hold that an error announces, if it is long enough for a notice.
pub open spec fn notified_ms(err: Seq<char>) -> Option<nat> {
    match defer_ms_of(err) {
        Some(ms) => if ms >= MIN_NOTIFY_MS {
            Some(ms)
        } else {
            None
        },
        None => None,
    }
}

/// The template in effect: the configured one, unless it is missing or empty.
pub open spec fn template_in_effect(configured: Option<Seq<char>>) -> Seq<char> {
    match configured {
        Some(t) => if t.len() > 0 {
            t
        } else {
            DEFAULT_TEMPLATE@
        },
        None => DEFAULT_TEMPLATE@,
    }
}

/// The zone in effect: the configured one, unless it is missing or unknown.
pub open spec fn zone_in_effect(configured: Option<Seq<char>>) -> Seq<char> {
    match configured {
        Some(z) => if clock::zone_known(z) {
            z
        } else {
            clock::DEFAULT_ZONE@
        },
        None => clock::DEFAULT_ZONE@,
    }
}

/// The UTC second at which a hold of `ms` milliseconds that begins at `now` ends.
pub open spec fn reset_secs(now: UtcTime, ms: int) -> int {
    clock::utc_sum(now, ms).secs as int
}

/// The notice for a hold of `ms` milliseconds that begins at `now`.
pub open spec fn notice(
    now: UtcTime,
    ms: int,
    zone: Option<Seq<char>>,
    template: Option<Seq<char>>,
) -> Seq<char> {
    let z = zone_in_effect(zone);
    let at = reset_secs(now, ms);
    text::replaced(
        template_in_effect(template),
        RESET_TIME@,
        clock::hh_mm(at + clock::zone_offset(z, at)),
    )
}

/// Whether the end of the hold that `err` announces can be written as a [`UtcTime`].
pub open spec fn reset_is_representable_spec(err: Seq<char>, now: UtcTime) -> bool {
    notified_ms(err) matches Some(ms) ==> clock::can_add_millis(now, ms as int)
}

/// The ASCII digits of `chars` from position `from` on.
fn digits_from(chars: &Vec<char>, from: usize) -> (r: String)
    requires
        from <= chars@.len(),
    ensures
        r@ == leading_digits(chars@.skip(from as int)),
{
    let mut out = String::new();
    let mut i: usize = from;
    assert(chars@.skip(from as int) == chars@.skip(i as int));
    while i < chars.len() && '0' <= chars[i] && chars[i] <= '9'
        invariant
            from <= i <= chars@.len(),
            leading_digits(chars@.skip(from as int)) == out@ + leading_digits(
                chars@.skip(i as int),
            ),
        decreases chars@.len() - i,
    {
        let ghost rest = chars@.skip(i as int);
        assert(rest.drop_first() == chars@.skip(i + 1));
        out.push(chars[i]);
        i = i + 1;
    }
    out
}

/// Reads the length of a hold, in milliseconds, out of a kernel error: the digits that follow
/// the first marker. `None` where there is no marker, no digit behind it, or a number that does
/// not fit.
pub fn parse_defer_marker(err: &str) -> (r: Option<u64>)
    ensures
        match r {
            Some(ms) => defer_ms_of(err@) == Some(ms as nat),
            None => defer_ms_of(err@) is None,
        },
{
    let chars = text::chars_of(err);
    let marker = text::chars_of(DEFER_MARKER);
    proof {
        text::lemma_first_at(err@, DEFER_MARKER@, 0);
    }
    match text::find_from(&chars, &marker, 0) {
        Some(i) => {
            assert(text::first_at(err@, DEFER_MARKER@, 0) == Some(i as int)) by {
                let j = text::first_at(err@, DEFER_MARKER@, 0);
                assert(j is Some);
                if j->0 < i {
                    assert(!text::occurs_at(chars@, marker@, j->0));
                }
                if i < j->0 {
                    assert(!text::occurs_at(err@, DEFER_MARKER@, i as int));
                }
            }
            let n: usize = chars.len();
            assert(i + marker@.len() <= n);
            let digits = digits_from(&chars, i + marker.len());
            text::parse_decimal(digits.as_str(), u64::MAX)
        },
        None => {
            assert(text::first_at(err@, DEFER_MARKER@, 0) is None) by {
                if let Some(j) = text::first_at(err@, DEFER_MARKER@, 0) {
                    assert(!text::occurs_at(chars@, marker@, j));
                }
            }
            None
        },
    }
}

/// The template in effect for what is configured.
pub fn active_template(configured: Option<&str>) -> (r: String)
    ensures
        r@ == template_in_effect(text::opt_text(configured)),
{
    match configured {
        Some(t) => if !t.is_empty() {
            t.to_owned()
        } else {
            DEFAULT_TEMPLATE.to_owned()
        },
        None => DEFAULT_TEMPLATE.to_owned(),
    }
}

/// The name of the zone in effect for what is configured: always a zone that is known.
pub fn box_tz(configured: Option<&str>) -> (r: String)
    ensures
        r@ == zone_in_effect(text::opt_text(configured)),
        clock::zone_known(r@),
{
    if let Some(name) = configured {
        if clock::is_zone_name(name) {
            return name.to_owned();
        }
    }
    let known = clock::is_zone_name(clock::DEFAULT_ZONE);
    assert(known);
    clock::DEFAULT_ZONE.to_owned()
}

/// The clock time at `t` in the zone in effect, as `HH:MM`.
pub fn render_local_time(t: UtcTime, zone: Option<&str>) -> (r: String)
    requires
        t.valid(),
    ensures
        r@ == clock::hh_mm(
            t.secs + clock::zone_offset(zone_in_effect(text::opt_text(zone)), t.secs as int),
        ),
{
    let name = box_tz(zone);
    clock::local_clock(name.as_str(), t)
}

/// `template` with the clock time filled in.
pub fn fill_template(template: &str, reset_time: &str) -> (r: String)
    ensures
        r@ == text::replaced(template@, RESET_TIME@, reset_time@),
{
    proof {
        reveal_strlit("{reset_time}");
    }
    text::replace_all(template, RESET_TIME, reset_time)
}

/// A hold that ends within the range of [`UtcTime`] fits the calendar arithmetic.
proof fn lemma_representable_hold_fits(now: UtcTime, ms: u64)
    requires
        now.valid(),
        clock::can_add_millis(now, ms as int),
    ensures
        ms <= i64::MAX,
{
}

/// Whether [`build_rate_limit_notify_text`] can be asked about `err_str` at `now`.
pub fn reset_is_representable(err_str: &str, now: UtcTime) -> (r: bool)
    requires
        now.valid(),
    ensures
        r == reset_is_representable_spec(err_str@, now),
{
    match parse_defer_marker(err_str) {
        Some(ms) => {
            proof {
                if clock::can_add_millis(now, ms as int) {
                    lemma_representable_hold_fits(now, ms);
                }
            }
            ms < MIN_NOTIFY_MS || (ms <= i64::MAX as u64 && clock::fits_millis(now, ms as i64))
        },
        None => true,
    }
}

/// Writes the notice for a hold of `defer_ms` milliseconds that begins at `now`; `None` for one
/// shorter than a second.
pub fn notice_for_hold(
    defer_ms: u64,
    now: UtcTime,
    zone: Option<&str>,
    template: Option<&str>,
) -> (r: Option<String>)
    requires
        now.valid(),
        defer_ms >= MIN_NOTIFY_MS ==> clock::can_add_millis(now, defer_ms as int),
    ensures
        match r {
            Some(t) => {
                &&& defer_ms >= MIN_NOTIFY_MS
                &&& t@ == notice(
                    now,
                    defer_ms as int,
                    text::opt_text(zone),
                    text::opt_text(template),
                )
            },
            None => defer_ms < MIN_NOTIFY_MS,
        },
{
    if defer_ms < MIN_NOTIFY_MS {
        return None;
    }
    proof {
        lemma_representable_hold_fits(now, defer_ms);
    }
    let ms: i64 = defer_ms as i64;
    let reset_at = clock::add_millis(now, ms);
    proof {
        clock::lemma_sum_is_valid(now, ms as int);
    }
    let reset_local = render_local_time(reset_at, zone);
    let shape = active_template(template);
    Some(fill_template(shape.as_str(), reset_local.as_str()))
}

/// Writes the notice for a deferred turn, given the kernel error, the present time, and the zone
/// and template that are configured.
///
/// `None` where the error does not announce a hold, or one shorter than a second.
pub fn build_rate_limit_notify_text(
    err_str: &str,
    now: UtcTime,
    zone: Option<&str>,
    template: Option<&str>,
) -> (r: Option<String>)
    requires
        now.valid(),
        reset_is_representable_spec(err_str@, now),
    ensures
        match r {
            Some(t) => {
                &&& notified_ms(err_str@) matches Some(ms)
                &&& t@ == notice(now, ms as int, text::opt_text(zone), text::opt_text(template))
            },
            None => notified_ms(err_str@) is None,
        },
{
    match parse_defer_marker(err_str) {
        Some(defer_ms) => notice_for_hold(defer_ms, now, zone, template),
        None => None,
    }
}

// ---------------------------------------------------------------------------
// Laws
// ---------------------------------------------------------------------------

/// A hold that is worth a notice ends its own length after it began, to the second.
pub proof fn law_hold_ends_after_its_length(now: UtcTime, ms: int)
    requires
        now.valid(),
        MIN_NOTIFY_MS <= ms,
        clock::can_add_millis(now, ms),
    ensures
        reset_secs(now, ms) == (now.total_nanos() + ms * 1_000_000) / 1_000_000_000,
{
    clock::lemma_sum_is_valid(now, ms);
}

/// A template without the placeholder is sent as it stands.
pub proof fn law_template_without_placeholder_is_verbatim(
    template: Seq<char>,
    reset_time: Seq<char>,
)
    requires
        !text::occurs_in(template, RESET_TIME@),
    ensures
        text::replaced(template, RESET_TIME@, reset_time) == template,
{
    reveal_strlit("{reset_time}");
    text::lemma_first_at(template, RESET_TIME@, 0);
    if let Some(i) = text::first_at(template, RESET_TIME@, 0) {
        assert(text::occurs_at(template, RESET_TIME@, i));
    }
    assert(template.skip(0) == template);
}

/// The one placeholder of a template is replaced, and the text round it is kept.
pub proof fn law_single_placeholder_is_replaced(
    template: Seq<char>,
    at: int,
    reset_time: Seq<char>,
)
    requires
        text::occurs_at(template, RESET_TIME@, at),
        forall|i: int| text::occurs_at(template, RESET_TIME@, i) ==> i == at,
    ensures
        text::replaced(template, RESET_TIME@, reset_time) == template.take(at) + reset_time
            + template.skip(at + RESET_TIME@.len()),
{
    reveal_strlit("{reset_time}");
    let next = at + RESET_TIME@.len();
    text::lemma_first_at(template, RESET_TIME@, 0);
    text::lemma_first_at(template, RESET_TIME@, next);
    assert(text::first_at(template, RESET_TIME@, 0) == Some(at));
    assert(text::first_at(template, RESET_TIME@, next) is None);
    reveal_with_fuel(text::replaced_from, 2);
    assert(template.subrange(0, at) == template.take(at));
}

/// An error announces a hold where digits follow the first marker: whatever stands in front and
/// behind, all the digits are read, and the number that they write counts, as long as 64 bits hold
/// it. A notice is sent from one second on.
pub proof fn law_written_hold_is_read(before: Seq<char>, digits: Seq<char>, after: Seq<char>)
    requires
        forall|i: int|
            0 <= i < before.len() ==> !#[trigger] text::occurs_at(
                before + "[rate_limit_defer_ms]="@ + digits + after,
                "[rate_limit_defer_ms]="@,
                i,
            ),
        digits.len() > 0,
        forall|i: int| 0 <= i < digits.len() ==> '0' <= (#[trigger] digits[i]) <= '9',
        after.len() > 0 ==> !('0' <= after[0] <= '9'),
    ensures
        ({
            let err = before + "[rate_limit_defer_ms]="@ + digits + after;
            let ms = text::digits_value(digits);
            &&& defer_ms_of(err) == if ms <= u64::MAX {
                Some(ms)
            } else {
                None
            }
            &&& notified_ms(err) == if 1_000 <= ms <= u64::MAX {
                Some(ms)
            } else {
                None
            }
        }),
{
    let marker = "[rate_limit_defer_ms]="@;
    let err = before + marker + digits + after;
    let n = before.len() as int;
    assert(err.subrange(n, n + marker.len()) == marker);
    assert(text::occurs_at(err, marker, n));
    text::lemma_first_at(err, marker, 0);
    assert(text::first_at(err, marker, 0) == Some(n));
    assert(err.skip(n + marker.len()) == digits + after);
    lemma_leading_digits(digits, after);
    assert forall|i: int| 0 <= i < digits.len() implies text::is_digit(#[trigger] digits[i]) by {
        assert('0' <= digits[i] <= '9');
    }
}

/// The digits in front of anything else are all taken.
proof fn lemma_leading_digits(digits: Seq<char>, rest: Seq<char>)
    requires
        forall|i: int| 0 <= i < digits.len() ==> '0' <= (#[trigger] digits[i]) <= '9',
        rest.len() > 0 ==> !('0' <= rest[0] <= '9'),
    ensures
        leading_digits(digits + rest) == digits,
    decreases digits.len(),
{
    let s = digits + rest;
    if digits.len() > 0 {
        let less = digits.drop_first();
        assert(s.first() == digits[0]);
        assert(s.drop_first() == less + rest);
        assert forall|i: int| 0 <= i < less.len() implies '0' <= (#[trigger] less[i]) <= '9' by {
            assert(less[i] == digits[i + 1]);
        }
        lemma_leading_digits(less, rest);
        assert(seq![digits[0]] + less == digits);
    } else {
        assert(s == rest);
    }
}

/// An error without the marker, or without a digit behind the first one, announces nothing.
pub proof fn law_no_marker_no_hold(err: Seq<char>, before: Seq<char>, after: Seq<char>)
    ensures
        !text::occurs_in(err, "[rate_limit_defer_ms]="@) ==> defer_ms_of(err) is None
            && notified_ms(err) is None,
        err == before + "[rate_limit_defer_ms]="@ + after && (forall|i: int|
            0 <= i < before.len() ==> !#[trigger] text::occurs_at(
                err,
                "[rate_limit_defer_ms]="@,
                i,
            )) && (after.len() > 0 ==> !('0' <= after[0] <= '9')) ==> defer_ms_of(err) is None
            && notified_ms(err) is None,
{
    let marker = "[rate_limit_defer_ms]="@;
    text::lemma_first_at(err, marker, 0);
    if let Some(i) = text::first_at(err, marker, 0) {
        assert(text::occurs_at(err, marker, i));
    }
    if err == before + marker + after {
        let n = before.len() as int;
        assert(err.subrange(n, n + marker.len()) == marker);
        assert(text::occurs_at(err, marker, n));
        assert(err.skip(n + marker.len()) == after);
        if (after.len() > 0 ==> !('0' <= after[0] <= '9')) {
            assert(leading_digits(after) == Seq::<char>::empty());
        }
    }
}

/// What is configured counts: a template that is not empty, and a zone that is known. Otherwise it
/// is the default.
pub proof fn law_configured_values_count(template: Seq<char>, zone: Seq<char>)
    ensures
        template.len() > 0 ==> template_in_effect(Some(template)) == template,
        template_in_effect(Some(Seq::empty())) == template_in_effect(None),
        template_in_effect(None)
            == "⏸️ Limite quota raggiunto. Reset alle {reset_time}. Ti rispondo dopo."@,
        clock::zone_known(zone) ==> zone_in_effect(Some(zone)) == zone,
        !clock::zone_known(zone) ==> zone_in_effect(Some(zone)) == "Europe/Rome"@,
        zone_in_effect(None) == "Europe/Rome"@,
{
}

/// A notice is the template in effect with the first placeholder, and in the same way all that
/// follow, replaced by the clock time, in the zone in effect, at which the hold ends.
pub proof fn law_notice_shows_when_the_hold_ends(
    now: UtcTime,
    ms: int,
    zone: Option<Seq<char>>,
    a: Seq<char>,
    b: Seq<char>,
)
    requires
        now.valid(),
        1_000 <= ms,
        clock::can_add_millis(now, ms),
        forall|i: int|
            0 <= i < a.len() ==> !#[trigger] text::occurs_at(
                a + "{reset_time}"@ + b,
                "{reset_time}"@,
                i,
            ),
    ensures
        ({
            let secs = (now.secs * 1_000_000_000 + now.nanos as int % 1_000_000_000 + ms
                * 1_000_000) / 1_000_000_000;
            let shown = clock::hh_mm(secs + clock::zone_offset(zone_in_effect(zone), secs));
            &&& notice(now, ms, zone, Some(a + "{reset_time}"@ + b)) == a + shown + text::replaced(
                b,
                "{reset_time}"@,
                shown,
            )
            &&& b.len() > 0 && !text::occurs_in(b, "{reset_time}"@) ==> notice(
                now,
                ms,
                zone,
                Some(b),
            ) == b
        }),
{
    reveal_strlit("{reset_time}");
    let template = a + "{reset_time}"@ + b;
    assert("{reset_time}"@.len() > 0);
    assert(template.len() > 0);
    law_hold_ends_after_its_length(now, ms);
    let at = reset_secs(now, ms);
    let shown = clock::hh_mm(at + clock::zone_offset(zone_in_effect(zone), at));
    text::law_replacing_goes_left_to_right(a, "{reset_time}"@, b, shown);
    if !text::occurs_in(b, "{reset_time}"@) {
        text::law_nothing_to_replace(b, "{reset_time}"@, shown);
    }
}

} // verus!
