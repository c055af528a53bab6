//! Instants and spans of time.

use vstd::prelude::*;

verus! {

/// Nanoseconds in one second.
pub const NANOS_PER_SEC: i128 = 1_000_000_000;

/// A point in time: whole seconds since the Unix epoch, and nanoseconds past
/// that second.
#[derive(Debug, Clone, Copy, PartialEq, Eq, Structural)]
pub struct Timestamp {
    pub secs: i64,
    pub nanos: u32,
}

/// A length of time.
#[derive(Debug, Clone, Copy, PartialEq, Eq, Structural)]
pub struct Span {
    pub nanos: u128,
}

impl Timestamp {
    /// Nanoseconds since the Unix epoch.
    pub open spec fn instant(self) -> int {
        self.secs * NANOS_PER_SEC + self.nanos
    }

    /// Nanoseconds since the Unix epoch.
    pub fn to_nanos(&self) -> (r: i128)
        ensures
            r == self.instant(),
            -9_300_000_000_000_000_000_000_000_000 <= r <= 9_300_000_000_000_000_000_000_000_000,
    {
        (self.secs as i128) * NANOS_PER_SEC + (self.nanos as i128)
    }

    /// The time from `now` until this instant; `None` once it has passed.
    pub fn since(&self, now: &Timestamp) -> (r: Option<Span>)
        ensures
            match r {
                Some(span) => span.nanos == self.instant() - now.instant(),
                None => self.instant() < now.instant(),
            },
    {
        let later: i128 = self.to_nanos();
        let earlier: i128 = now.to_nanos();
        if later >= earlier {
            Some(Span { nanos: (later - earlier) as u128 })
        } else {
            None
        }
    }
}

/// Seconds of the first instant that `chrono` can represent.
pub const FIRST_SECS: i64 = -8_334_601_228_800;

/// Seconds of the last instant that `chrono` can represent.
pub const LAST_SECS: i64 = 8_210_266_876_799;

/// `t` is an instant of the calendar: within the years that `chrono` can
/// represent. A leap second counts on past the last second of a minute.
pub open spec fn in_calendar(t: Timestamp) -> bool {
    &&& FIRST_SECS <= t.secs <= LAST_SECS
    &&& t.nanos < NANOS_PER_SEC || (t.nanos < 2 * NANOS_PER_SEC && t.secs % 60 == 59)
}

/// The instant in RFC 3339 notation, to the second, in UTC with a `Z`.
pub uninterp spec fn rfc3339_text(secs: i64, nanos: u32) -> Seq<char>;

/// The instant that lies `secs` seconds after the Unix epoch, by
/// `chrono::DateTime::from_timestamp`: it has no fraction of a second, and
/// there is none outside the years -262143 to 262142.
#[verifier::external_body]
fn chrono_instant(secs: i64) -> (r: Option<Timestamp>)
    ensures
        match r {
            Some(t) => FIRST_SECS <= secs <= LAST_SECS && t == (Timestamp { secs, nanos: 0 }),
            None => secs < FIRST_SECS || LAST_SECS < secs,
        },
{
    chrono::DateTime::from_timestamp(secs, 0).map(
        |t| Timestamp { secs: t.timestamp(), nanos: t.timestamp_subsec_nanos() },
    )
}

/// The instant `t` as `chrono::DateTime::to_rfc3339_opts` writes it with whole
/// seconds and a `Z`: a text that depends on the instant alone.
#[verifier::external_body]
fn chrono_rfc3339(t: &Timestamp) -> (r: String)
    requires
        in_calendar(*t),
    ensures
        r@ == rfc3339_text(t.secs, t.nanos),
{
    chrono::DateTime::from_timestamp(t.secs, t.nanos)
        .unwrap_or_default()
        .to_rfc3339_opts(chrono::SecondsFormat::Secs, true)
}

impl Timestamp {
    /// True when the calendar has the instant.
    pub fn is_in_calendar(&self) -> (r: bool)
        ensures
            r == in_calendar(*self),
    {
        if self.secs < FIRST_SECS || LAST_SECS < self.secs {
            return false;
        }
        // The first second of the calendar begins a minute.
        let past_minute: i64 = (self.secs - FIRST_SECS) % 60;
        self.nanos < 1_000_000_000 || (self.nanos < 2_000_000_000 && past_minute == 59)
    }

    /// The instant that lies `secs` seconds after the Unix epoch, when the
    /// calendar has it.
    pub fn at_secs(secs: i64) -> (r: Option<Timestamp>)
        ensures
            match r {
                Some(t) => in_calendar(t) && t == (Timestamp { secs, nanos: 0 }),
                None => !in_calendar(Timestamp { secs, nanos: 0 }),
            },
    {
        chrono_instant(secs)
    }

    /// The instant in RFC 3339 notation, to the second, in UTC.
    pub fn to_rfc3339(&self) -> (r: String)
        requires
            in_calendar(*self),
        ensures
            r@ == rfc3339_text(self.secs, self.nanos),
    {
        chrono_rfc3339(self)
    }
}

/// Instants are counted in nanoseconds, a second being a thousand million of
/// them, and the time until an instant is what it takes to get there.
pub proof fn instants_are_counted_in_nanoseconds(
    later: &Timestamp,
    now: &Timestamp,
    nanos: i128,
    r: Option<Span>,
)
    requires
        call_ensures(Timestamp::to_nanos, (later,), nanos),
        call_ensures(Timestamp::since, (later, now), r),
    ensures
        nanos == later.secs * 1_000_000_000 + later.nanos,
        r is Some <==> later.secs * 1_000_000_000 + later.nanos >= now.secs * 1_000_000_000
            + now.nanos,
        r matches Some(span) ==> now.secs * 1_000_000_000 + now.nanos + span.nanos == later.secs
            * 1_000_000_000 + later.nanos,
{
}

/// The calendar reaches from the year -262143 to 262142, and a fraction is less
/// than a second but for leap seconds, which end a minute. An instant that is
/// given in whole seconds is that instant.
pub proof fn the_calendar_has_its_limits(t: &Timestamp, has: bool, secs: i64, at: Option<Timestamp>)
    requires
        call_ensures(Timestamp::is_in_calendar, (t,), has),
        call_ensures(Timestamp::at_secs, (secs,), at),
    ensures
        has <==> {
            &&& -8_334_601_228_800 <= t.secs <= 8_210_266_876_799
            &&& t.nanos < 1_000_000_000 || (t.nanos < 2_000_000_000 && t.secs % 60 == 59)
        },
        at is Some <==> -8_334_601_228_800 <= secs <= 8_210_266_876_799,
        at matches Some(found) ==> found.secs == secs && found.nanos == 0,
{
}

} // verus!
