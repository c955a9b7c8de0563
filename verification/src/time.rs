//! Points in time, as the shares and the peers record them.

use chrono::{DateTime, Utc};
use crate::text::decimal;
use crate::text::decimal_text;
use vstd::prelude::*;

verus! {

/// Nanoseconds in a second.
pub const NANOS_PER_SEC: u64 = 1_000_000_000;

/// The first second that a date can fall on.
pub const MIN_SECS: i64 = -8_334_601_228_800;

/// The last second that a date can fall on.
pub const MAX_SECS: i64 = 8_210_266_876_799;

/// A point in time: whole seconds since the start of 1970 in UTC, and the
/// nanoseconds that have passed since.
#[derive(Debug, Clone, Copy, PartialEq, Eq, Structural)]
pub struct Timestamp {
    pub secs: i64,
    pub nanos: u32,
}

/// What the user interface reads off its clocks when it hands over an event:
/// nanoseconds on a clock that never runs backwards, and the time of day.
#[derive(Debug, Clone, Copy, PartialEq, Eq, Structural)]
pub struct Clock {
    pub mono: u64,
    pub wall: Timestamp,
}

impl Timestamp {
    /// Whether this is a point in time that a date can be given for.
    pub open spec fn wf(self) -> bool {
        MIN_SECS <= self.secs <= MAX_SECS && self.nanos < NANOS_PER_SEC
    }

    /// Nanoseconds since the start of 1970.
    pub open spec fn instant(self) -> int {
        self.secs * NANOS_PER_SEC + self.nanos
    }

    /// Whether this point in time lies behind `other`.
    pub open spec fn later_than(self, other: Timestamp) -> bool {
        self.secs > other.secs || (self.secs == other.secs && self.nanos > other.nanos)
    }

    /// Whether this point in time lies behind `other`.
    pub fn is_later_than(&self, other: &Timestamp) -> (r: bool)
        ensures
            r == self.later_than(*other),
    {
        self.secs > other.secs || (self.secs == other.secs && self.nanos > other.nanos)
    }

    /// Whole seconds from `earlier` to this point in time, rounded towards zero.
    pub open spec fn seconds_since_spec(self, earlier: Timestamp) -> int {
        let d = self.instant() - earlier.instant();
        if d >= 0 {
            d / (NANOS_PER_SEC as int)
        } else {
            -((-d) / (NANOS_PER_SEC as int))
        }
    }

    /// Whole seconds from `earlier` to this point in time, rounded towards zero.
    pub fn seconds_since(&self, earlier: &Timestamp) -> (r: i128)
        ensures
            r == self.seconds_since_spec(*earlier),
            i64::MIN - i64::MAX - 6 <= r <= i64::MAX - i64::MIN + 6,
    {
        let d: i128 = (self.secs as i128 - earlier.secs as i128) * 1_000_000_000 + (
        self.nanos as i128 - earlier.nanos as i128);
        if d >= 0 {
            d / 1_000_000_000
        } else {
            -((-d) / 1_000_000_000)
        }
    }
}

/// Points in time that dates can be given for lie in the order of their
/// nanoseconds since 1970.
pub proof fn law_later_is_greater_instant(a: Timestamp, b: Timestamp)
    requires
        a.wf(),
        b.wf(),
    ensures
        a.later_than(b) <==> a.instant() > b.instant(),
{
}

/// The number of minutes that an unsigned count stands for once it is read as
/// a signed one.
pub open spec fn signed_minutes(minutes: u64) -> int {
    if minutes <= i64::MAX {
        minutes as int
    } else {
        minutes - 0x1_0000_0000_0000_0000
    }
}

/// Whether `minutes` from `now` is a point in time that a date can be given for.
pub open spec fn minutes_fit(now: Timestamp, minutes: u64) -> bool {
    MIN_SECS <= now.secs + signed_minutes(minutes) * 60 <= MAX_SECS
}

/// Whether `minutes` from `now` is a point in time that a date can be given for.
pub fn is_minutes_fit(now: &Timestamp, minutes: u64) -> (r: bool)
    ensures
        r == minutes_fit(*now, minutes),
{
    let signed: i128 = if minutes <= i64::MAX as u64 {
        minutes as i128
    } else {
        minutes as i128 - 0x1_0000_0000_0000_0000
    };
    let secs: i128 = now.secs as i128 + signed * 60;
    MIN_SECS as i128 <= secs && secs <= MAX_SECS as i128
}

/// The point in time `minutes` from `now`.
pub fn plus_minutes(now: &Timestamp, minutes: u64) -> (r: Timestamp)
    requires
        minutes_fit(*now, minutes),
    ensures
        r.secs == now.secs + signed_minutes(minutes) * 60,
        r.nanos == now.nanos,
{
    let signed: i128 = if minutes <= i64::MAX as u64 {
        minutes as i128
    } else {
        minutes as i128 - 0x1_0000_0000_0000_0000
    };
    Timestamp { secs: (now.secs as i128 + signed * 60) as i64, nanos: now.nanos }
}

/// `chrono::Utc::now` reads the system clock. It gives a point in time from
/// 1970 on that a date can be given for; which one rests on that clock.
#[verifier::external_body]
pub(crate) fn utc_now() -> (t: Timestamp)
    ensures
        t.wf(),
        t.secs >= 0,
{
    let now = Utc::now();
    Timestamp { secs: now.timestamp(), nanos: now.timestamp_subsec_nanos() }
}

/// The time of day.
pub fn now() -> (t: Timestamp)
    ensures
        t.wf(),
        t.secs >= 0,
{
    utc_now()
}

/// The RFC 3339 notation of a point in time.
pub uninterp spec fn rfc3339_text(secs: int, nanos: int) -> Seq<char>;

/// `chrono::DateTime::to_rfc3339` on the date of a point in time, which
/// `DateTime::from_timestamp` gives for every point in its range.
#[verifier::external_body]
pub(crate) fn rfc3339(t: &Timestamp) -> (s: String)
    requires
        t.wf(),
    ensures
        s@ == rfc3339_text(t.secs as int, t.nanos as int),
{
    DateTime::from_timestamp(t.secs, t.nanos).unwrap().to_rfc3339()
}

/// Whole seconds that have passed on the monotonic clock from `since` to
/// `now`; none where `since` lies ahead.
pub open spec fn elapsed_secs(now: u64, since: u64) -> int {
    if now >= since {
        (now - since) / (NANOS_PER_SEC as int)
    } else {
        0
    }
}

/// Whole seconds from `since` to `now` on the monotonic clock.
pub fn secs_between(now: u64, since: u64) -> (r: u64)
    ensures
        r == elapsed_secs(now, since),
{
    if now >= since {
        (now - since) / NANOS_PER_SEC
    } else {
        0
    }
}

/// Whole milliseconds from `since` to `now` on the monotonic clock.
pub open spec fn elapsed_millis(now: u64, since: u64) -> int {
    if now >= since {
        (now - since) / 1_000_000
    } else {
        0
    }
}

/// Whole milliseconds from `since` to `now` on the monotonic clock.
pub fn millis_between(now: u64, since: u64) -> (r: u64)
    ensures
        r == elapsed_millis(now, since),
{
    if now >= since {
        (now - since) / 1_000_000
    } else {
        0
    }
}

/// A count of seconds in words, in the units that the user interface shows
/// beside a running transfer.
pub open spec fn eta_text(secs: nat) -> Seq<char> {
    let h = secs / 3600;
    let m = (secs % 3600) / 60;
    let s = secs % 60;
    if h > 0 {
        decimal_text(h) + " h "@ + decimal_text(m) + " m "@ + decimal_text(s) + " s"@
    } else if m > 0 {
        decimal_text(m) + " m "@ + decimal_text(s) + " s"@
    } else {
        decimal_text(s) + " s"@
    }
}

/// A count of seconds in words.
pub fn format_eta(secs: u64) -> (r: String)
    ensures
        r@ == eta_text(secs as nat),
{
    let h = secs / 3600;
    let m = (secs % 3600) / 60;
    let s = secs % 60;
    if h > 0 {
        let mut out = decimal(h);
        out.append(" h ");
        out.append(decimal(m).as_str());
        out.append(" m ");
        out.append(decimal(s).as_str());
        out.append(" s");
        out
    } else if m > 0 {
        let mut out = decimal(m);
        out.append(" m ");
        out.append(decimal(s).as_str());
        out.append(" s");
        out
    } else {
        let mut out = decimal(s);
        out.append(" s");
        out
    }
}

/// The time that a transfer still takes is told in hours, minutes and seconds,
/// from the largest of them on that is not nothing.
pub proof fn law_eta_tells_the_time(h: nat, m: nat, s: nat)
    requires
        m < 60,
        s < 60,
    ensures
        h > 0 ==> eta_text(3600 * h + 60 * m + s) == decimal_text(h) + " h "@ + decimal_text(m)
            + " m "@ + decimal_text(s) + " s"@,
        m > 0 ==> eta_text(60 * m + s) == decimal_text(m) + " m "@ + decimal_text(s) + " s"@,
        eta_text(s) == decimal_text(s) + " s"@,
{
}

/// A point in time lies behind another by the whole seconds between them, and
/// before it by as many.
pub proof fn law_seconds_between(a: Timestamp, b: Timestamp)
    ensures
        a.instant() == a.secs * 1_000_000_000 + a.nanos,
        a.instant() >= b.instant() ==> a.seconds_since_spec(b) == (a.instant() - b.instant())
            / 1_000_000_000,
        a.seconds_since_spec(b) == -b.seconds_since_spec(a),
{
}

/// Time passes on the clock that never runs backwards by its nanoseconds.
pub proof fn law_elapsed_time(now: u64, since: u64)
    ensures
        now >= since ==> elapsed_secs(now, since) == (now - since) / 1_000_000_000 && elapsed_millis(
            now,
            since,
        ) == (now - since) / 1_000_000,
        now <= since ==> elapsed_secs(now, since) == 0 && elapsed_millis(now, since) == 0,
{
}

}
