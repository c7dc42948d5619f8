//! Calendar arithmetic on instants, done by the `chrono` family of crates.

use crate::state::{UtcInstant, MAX_EPOCH_SECONDS};
use chrono::{SubsecRound, TimeZone};
use vstd::prelude::*;

verus! {

/// Nanoseconds in a second.
pub const NANOS_PER_SECOND: i64 = 1_000_000_000;

/// The instant lies within one second of the range that instants are made
/// in, which is where a rounded instant may come to lie.
pub open spec fn spec_in_calendar(t: UtcInstant) -> bool {
    &&& -MAX_EPOCH_SECONDS - 1 <= t.secs <= MAX_EPOCH_SECONDS + 1
    &&& t.nanos < 1_000_000_000
}

/// The instant rounded to the nearest whole second, half a second going up.
pub open spec fn spec_round_to_second(t: UtcInstant) -> UtcInstant {
    UtcInstant {
        secs: if t.nanos >= 500_000_000 {
            (t.secs + 1) as i64
        } else {
            t.secs
        },
        nanos: 0,
    }
}

/// The distance from `earlier` to `later` in nanoseconds; negative when
/// `later` comes first.
pub open spec fn spec_nanos_between(later: UtcInstant, earlier: UtcInstant) -> int {
    (later.secs - earlier.secs) * NANOS_PER_SECOND + (later.nanos - earlier.nanos)
}

/// The whole seconds in the distance from `earlier` to `later`, the fraction
/// cut off towards zero.
pub open spec fn spec_whole_seconds_between(later: UtcInstant, earlier: UtcInstant) -> int {
    let nanos = spec_nanos_between(later, earlier);
    if nanos >= 0 {
        nanos / (NANOS_PER_SECOND as int)
    } else {
        -((-nanos) / (NANOS_PER_SECOND as int))
    }
}

/// The text that `budapest_clock_text` returns for the instant made of the
/// two numbers.
pub uninterp spec fn spec_budapest_clock_text(secs: i64, nanos: u32) -> Seq<char>;

/// Calls `chrono::SubsecRound::round_subsecs` with zero digits on the
/// instant. Claimed: the result has no fraction, and is the second of the
/// instant, or the next one when the fraction was half a second or more.
#[verifier::external_body]
pub(crate) fn round_to_second(t: UtcInstant) -> (r: UtcInstant)
    requires
        t.wf(),
    ensures
        r == spec_round_to_second(t),
{
    let rounded = chrono::DateTime::from_timestamp(t.secs, t.nanos).unwrap().round_subsecs(0);
    UtcInstant { secs: rounded.timestamp(), nanos: rounded.timestamp_subsec_nanos() }
}

/// Calls `chrono::DateTime::signed_duration_since` and reads the result with
/// `chrono::TimeDelta::num_seconds`. Claimed: the result is the distance
/// between the two instants in whole seconds, cut off towards zero.
#[verifier::external_body]
pub(crate) fn whole_seconds_between(later: UtcInstant, earlier: UtcInstant) -> (r: i64)
    requires
        spec_in_calendar(later),
        spec_in_calendar(earlier),
    ensures
        r == spec_whole_seconds_between(later, earlier),
{
    let a = chrono::DateTime::from_timestamp(later.secs, later.nanos).unwrap();
    let b = chrono::DateTime::from_timestamp(earlier.secs, earlier.nanos).unwrap();
    a.signed_duration_since(b).num_seconds()
}

/// Calls `chrono::TimeZone::from_utc_datetime` on `chrono_tz::Europe::Budapest`
/// and formats the local time as year, month, day, hour, minute and second.
/// Claimed: the text depends on the instant alone.
#[verifier::external_body]
pub(crate) fn budapest_clock_text(now: UtcInstant) -> (r: String)
    requires
        now.wf(),
    ensures
        r@ == spec_budapest_clock_text(now.secs, now.nanos),
{
    let utc = chrono::DateTime::from_timestamp(now.secs, now.nanos).unwrap();
    let local = chrono_tz::Europe::Budapest.from_utc_datetime(&utc.naive_utc());
    local.format("%Y-%m-%d %H:%M:%S").to_string()
}

/// The seconds left until `depart_at`, which is first rounded to a whole
/// second, as seen at `now`. Fractions are cut off towards zero, so the
/// result is positive only when at least a whole second is left.
pub open spec fn spec_seconds_left(depart_at: UtcInstant, now: UtcInstant) -> int {
    spec_whole_seconds_between(spec_round_to_second(depart_at), now)
}

/// The seconds left until a departure.
pub fn seconds_left(depart_at: UtcInstant, now: UtcInstant) -> (r: i64)
    requires
        depart_at.wf(),
        now.wf(),
    ensures
        r == spec_seconds_left(depart_at, now),
{
    whole_seconds_between(round_to_second(depart_at), now)
}

/// With a departure on a whole second and a clock on a whole second, the
/// seconds left are the plain difference of the two.
pub proof fn law_seconds_left_on_whole_seconds(depart_at: UtcInstant, now: UtcInstant)
    requires
        depart_at.wf(),
        now.wf(),
        depart_at.nanos == 0,
        now.nanos == 0,
    ensures
        spec_seconds_left(depart_at, now) == depart_at.secs - now.secs,
{
    let d = depart_at.secs - now.secs;
    let n = NANOS_PER_SECOND as int;
    assert(spec_nanos_between(spec_round_to_second(depart_at), now) == d * n);
    if d >= 0 {
        assert((d * n) / n == d) by (nonlinear_arith)
            requires
                n == 1_000_000_000,
        ;
    } else {
        assert((-(d * n)) / n == -d) by (nonlinear_arith)
            requires
                n == 1_000_000_000,
        ;
    }
}

} // verus!
