//! Time: wall-clock instants as seconds and nanoseconds since the Unix
//! epoch (`chrono`), their RFC 3339 text, and monotonic instants
//! (`std::time::Instant`) for timeouts and expiry.
use vstd::prelude::*;
use core::time::Duration;
use std::time::Instant;

verus! {

/// Earliest second representable as a UTC date-time: chrono's
/// `DateTime::MIN_UTC`, -262143-01-01T00:00:00Z.
pub const MIN_TIMESTAMP_SECS: i64 = -8334601228800;

/// Latest second representable as a UTC date-time: chrono's
/// `DateTime::MAX_UTC`, +262142-12-31T23:59:59Z.
pub const MAX_TIMESTAMP_SECS: i64 = 8210266876799;

/// A UTC instant: whole seconds since 1970-01-01T00:00:00Z and the
/// nanoseconds within the second (at or above 10^9 only during a leap
/// second, that is in a second whose number modulo 60 is 59).
#[derive(Clone, Copy, Debug, PartialEq, Eq)]
pub struct Timestamp {
    pub secs: i64,
    pub nanos: u32,
}

impl Timestamp {
    /// The instant is a date-time that `chrono` can represent.
    pub open spec fn valid(self) -> bool {
        &&& MIN_TIMESTAMP_SECS <= self.secs <= MAX_TIMESTAMP_SECS
        &&& self.nanos < 2_000_000_000
        &&& (self.nanos >= 1_000_000_000 ==> self.secs % 60 == 59)
    }

    /// `self` is strictly earlier than `other`.
    pub open spec fn before(self, other: Timestamp) -> bool {
        self.secs < other.secs || (self.secs == other.secs && self.nanos < other.nanos)
    }

    /// Makes an instant from its parts, when they form a representable
    /// date-time (`Utc.timestamp_opt(secs, nanos).single()`).
    pub fn from_parts(secs: i64, nanos: u32) -> (r: Option<Timestamp>)
        ensures
            r matches Some(t) ==> t.secs == secs && t.nanos == nanos && t.valid(),
            r is None ==> !(Timestamp { secs, nanos }).valid(),
    {
        let t = Timestamp { secs, nanos };
        if MIN_TIMESTAMP_SECS <= secs && secs <= MAX_TIMESTAMP_SECS && nanos < 2_000_000_000 && (
        nanos < 1_000_000_000 || secs % 60 == 59 || secs % 60 == -1) {
            proof {
                assert(t.valid()) by {
                    if nanos >= 1_000_000_000 {
                        assert(secs as int % 60 == 59);
                    }
                }
            }
            Some(t)
        } else {
            proof {
                if t.valid() && nanos >= 1_000_000_000 {
                    assert(secs as int % 60 == 59);
                    assert(secs % 60 == 59 || secs % 60 == -1);
                }
            }
            None
        }
    }

    /// Whether the instant is a date-time that `chrono` can represent.
    pub fn is_valid(&self) -> (r: bool)
        ensures
            r == self.valid(),
    {
        Timestamp::from_parts(self.secs, self.nanos).is_some()
    }

    /// `self` is strictly earlier than `other`.
    pub fn is_before(&self, other: &Timestamp) -> (r: bool)
        ensures
            r == self.before(*other),
    {
        self.secs < other.secs || (self.secs == other.secs && self.nanos < other.nanos)
    }
}

/// The RFC 3339 text that `chrono` gives a valid instant with automatic
/// sub-second digits and a `Z` offset.
pub uninterp spec fn rfc3339(secs: i64, nanos: u32) -> Seq<char>;

/// `chrono::Utc::now()`: the current UTC instant. It is taken from the
/// system clock as a duration since the epoch, so it is not before the
/// epoch and has nanoseconds below 10^9; nothing else is stated.
#[verifier::external_body]
pub(crate) fn utc_now() -> (r: Timestamp)
    ensures
        r.valid(),
        r.secs >= 0,
        r.nanos < 1_000_000_000,
{
    let now = chrono::Utc::now();
    Timestamp { secs: now.timestamp(), nanos: now.timestamp_subsec_nanos() }
}

/// `DateTime::from_timestamp(secs, nanos)` then
/// `to_rfc3339_opts(SecondsFormat::AutoSi, true)`: the text that serde
/// gives a `DateTime<Utc>`.
#[verifier::external_body]
pub(crate) fn rfc3339_text(t: &Timestamp) -> (r: String)
    requires
        t.valid(),
    ensures
        r@ == rfc3339(t.secs, t.nanos),
{
    chrono::DateTime::from_timestamp(t.secs, t.nanos)
        .unwrap()
        .to_rfc3339_opts(chrono::SecondsFormat::AutoSi, true)
}

/// A point on the process's monotonic clock.
#[verifier::external_type_specification]
#[verifier::external_body]
pub struct ExInstant(Instant);

/// `Instant::now()`: the current monotonic instant; no property stated.
#[verifier::external_body]
pub(crate) fn monotonic_now() -> (r: Instant) {
    Instant::now()
}

/// `Instant::elapsed`: the time since `since`; no property stated.
#[verifier::external_body]
pub(crate) fn elapsed_since(since: &Instant) -> (r: Duration) {
    since.elapsed()
}

/// The whole number of nanoseconds in a duration (`Duration::as_nanos`).
pub uninterp spec fn duration_as_nanos(d: Duration) -> u128;

/// `Duration::as_nanos`: the whole number of nanoseconds in `d`.
#[verifier::external_body]
pub(crate) fn duration_nanos(d: &Duration) -> (r: u128)
    ensures
        r == duration_as_nanos(*d),
{
    d.as_nanos()
}

/// The nanoseconds elapsed on the monotonic clock since `since`, the
/// clock's answer at the moment of the call: those of the duration that
/// `Instant::elapsed` gave.
pub fn nanos_since(since: &Instant) -> (r: u128)
    ensures
        exists|d: Duration| r == #[trigger] duration_as_nanos(d),
{
    let elapsed = elapsed_since(since);
    duration_nanos(&elapsed)
}

} // verus!
