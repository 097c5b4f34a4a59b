use vstd::prelude::*;

verus! {

/// Grain code of minute buckets.
pub const G_MINUTE: u8 = 0;
/// Grain code of hour buckets.
pub const G_HOUR: u8 = 1;
/// Grain code of day buckets.
pub const G_DAY: u8 = 2;

/// Seconds of the earliest instant a UTC date-time can hold (January 1, 262144 BCE).
pub const MIN_UTC_SECS: i64 = -8_334_601_228_800i64;
/// Seconds of the latest instant a UTC date-time can hold (December 31, 262142 CE, 23:59:59).
pub const MAX_UTC_SECS: i64 = 8_210_266_876_799i64;

/// An instant in UTC: whole seconds since the Unix epoch and the sub-second
/// nanoseconds (from 1_000_000_000 up for a leap second).
#[derive(Clone, Copy, Debug, PartialEq, Eq, Structural)]
pub struct Timestamp {
    pub secs: i64,
    pub nanos: u32,
}

impl Timestamp {
    /// The instant lies in the range of a UTC date-time, and its nanoseconds
    /// mark a leap second only on the last second of a minute.
    pub open spec fn valid(&self) -> bool {
        &&& MIN_UTC_SECS <= self.secs <= MAX_UTC_SECS
        &&& self.nanos < 2_000_000_000
        &&& (self.nanos >= 1_000_000_000 ==> self.secs % 60 == 59)
    }

    /// Whether the instant is valid.
    pub fn is_valid(&self) -> (r: bool)
        ensures
            r == self.valid(),
    {
        MIN_UTC_SECS <= self.secs && self.secs <= MAX_UTC_SECS && self.nanos < 2_000_000_000 && (
        self.nanos < 1_000_000_000 || self.secs.checked_rem_euclid(60) == Some(59i64))
    }

    /// The Unix epoch, 1970-01-01T00:00:00Z.
    pub fn epoch() -> (t: Timestamp)
        ensures
            t.secs == 0,
            t.nanos == 0,
            t.valid(),
    {
        Timestamp { secs: 0, nanos: 0 }
    }
}

/// Width in seconds of a bucket of the given grain; a grain code other than
/// minute or hour means a day.
pub open spec fn grain_width(grain: u8) -> int {
    if grain == G_MINUTE {
        60
    } else if grain == G_HOUR {
        3600
    } else {
        86400
    }
}

/// Start (in seconds) of the bucket of the given grain that holds the second
/// `secs`: `secs` rounded down to a multiple of the grain's width.
pub open spec fn bucket_start(secs: int, grain: u8) -> int {
    (secs / grain_width(grain)) * grain_width(grain)
}

/// Key of the bucket of grain `grain` that holds `ts`: the UTC-aligned start of
/// that minute, hour or day, in seconds since the epoch.
pub fn bucket_key(ts: &Timestamp, grain: u8) -> (key: i64)
    requires
        ts.valid(),
    ensures
        key == bucket_start(ts.secs as int, grain),
{
    let s = ts.secs;
    let width: i64 = if grain == G_MINUTE {
        60
    } else if grain == G_HOUR {
        3600
    } else {
        86400
    };
    proof {
        let w = width as int;
        let x = s as int;
        vstd::arithmetic::div_mod::lemma_fundamental_div_mod(x, w);
        assert(0 <= x % w < w) by {
            vstd::arithmetic::div_mod::lemma_mod_bound(x, w);
        }
        assert((x / w) * w == w * (x / w)) by (nonlinear_arith);
    }
    match s.checked_div_euclid(width) {
        Some(q) => q * width,
        None => 0,
    }
}

/// chrono's error for a text that is not an RFC 3339 date-time.
#[verifier::external_type_specification]
#[verifier::external_body]
pub struct ExParseError(chrono::ParseError);

/// Name for what chrono's RFC 3339 parser makes of a text, taken to UTC:
/// the instant's seconds and sub-second nanoseconds, or nothing where the
/// parser refuses the text.
pub uninterp spec fn rfc3339_instant(text: Seq<char>) -> Option<(i64, u32)>;

/// Name for chrono's rendering of the UTC instant `secs` (seconds since the
/// epoch) in the format `%Y-%m-%dT%H`.
pub uninterp spec fn hour_stamp(secs: i64) -> Seq<char>;

/// Name for chrono's RFC 3339 rendering of a UTC instant with nanosecond
/// digits and a `Z` suffix (`to_rfc3339_opts(SecondsFormat::Nanos, true)`).
pub uninterp spec fn rfc3339_nanos_text(secs: i64, nanos: u32) -> Seq<char>;

/// Builds the instant with `chrono::DateTime::from_timestamp` (`Some` for a
/// valid timestamp) and renders it with
/// `to_rfc3339_opts(SecondsFormat::Nanos, true)`. Claimed: the text is the
/// named rendering.
#[verifier::external_body]
pub(crate) fn format_rfc3339_nanos(ts: &Timestamp) -> (s: String)
    requires
        ts.valid(),
    ensures
        s@ == rfc3339_nanos_text(ts.secs, ts.nanos),
{
    chrono::DateTime::from_timestamp(ts.secs, ts.nanos).unwrap().to_rfc3339_opts(
        chrono::SecondsFormat::Nanos,
        true,
    )
}

/// Calls `chrono::DateTime::parse_from_rfc3339` and takes the result to UTC
/// (`with_timezone(&Utc)`, `timestamp`, `timestamp_subsec_nanos`). Claimed: the
/// result is the named parse of the text; a parsed instant lies in chrono's
/// UTC range, and its nanoseconds pass 1_000_000_000 only on the last second
/// of a minute (a leap second), as chrono documents for every `DateTime`.
#[verifier::external_body]
pub(crate) fn parse_rfc3339_utc(text: &str) -> (r: Result<Timestamp, chrono::ParseError>)
    ensures
        match r {
            Ok(t) => rfc3339_instant(text@) == Some((t.secs, t.nanos)) && t.valid(),
            Err(_) => rfc3339_instant(text@) is None,
        },
{
    match chrono::DateTime::parse_from_rfc3339(text) {
        Ok(t) => {
            let u = t.with_timezone(&chrono::Utc);
            Ok(Timestamp { secs: u.timestamp(), nanos: u.timestamp_subsec_nanos() })
        },
        Err(e) => Err(e),
    }
}

/// `a / b` rounded toward zero, for a positive `b`.
pub open spec fn div_toward_zero(a: int, b: int) -> int {
    if a >= 0 {
        a / b
    } else {
        -((-a) / b)
    }
}

/// The second of its UTC day at which an instant lies.
pub open spec fn second_of_day(secs: i64) -> int {
    secs as int % 86400
}

/// The second that chrono adds when a leap second lies between two instants:
/// one when `earlier` is a leap second and `later` lies at a later second of
/// its day, minus one when `later` is a leap second and lies at an earlier
/// second of its day than `earlier`, none otherwise.
pub open spec fn leap_adjust(later: Timestamp, earlier: Timestamp) -> int {
    if second_of_day(later.secs) > second_of_day(earlier.secs) && earlier.nanos >= 1_000_000_000 {
        1
    } else if second_of_day(later.secs) < second_of_day(earlier.secs) && later.nanos
        >= 1_000_000_000 {
        -1
    } else {
        0
    }
}

/// The nanoseconds chrono counts from instant `earlier` to instant `later`:
/// the difference of the seconds (with the leap-second adjustment) and of
/// the sub-second nanoseconds.
pub open spec fn nanos_between(later: Timestamp, earlier: Timestamp) -> int {
    (later.secs - earlier.secs + leap_adjust(later, earlier)) * 1_000_000_000 + later.nanos
        - earlier.nanos
}

/// Builds both instants with `chrono::DateTime::from_timestamp` (which gives
/// `Some` for every valid timestamp), subtracts them and calls
/// `TimeDelta::num_days`. Claimed: the result is `nanos_between` in whole
/// seconds (rounded toward zero) over 86400,
/// rounded toward zero: `signed_duration_since` adds the days between the
/// dates and the seconds and nanoseconds between the times of day (with its
/// leap-second adjustment), `num_seconds` and `num_days` round toward zero.
#[verifier::external_body]
pub(crate) fn days_between(later: &Timestamp, earlier: &Timestamp) -> (d: i64)
    requires
        later.valid(),
        earlier.valid(),
    ensures
        d == div_toward_zero(
            div_toward_zero(nanos_between(*later, *earlier), 1_000_000_000),
            86400,
        ),
{
    let a = chrono::DateTime::from_timestamp(later.secs, later.nanos).unwrap();
    let b = chrono::DateTime::from_timestamp(earlier.secs, earlier.nanos).unwrap();
    (a - b).num_days()
}

/// Builds the instant with `chrono::DateTime::from_timestamp(secs, 0)` (`Some`
/// for every second in chrono's range) and renders it with
/// `format("%Y-%m-%dT%H")`. Claimed: the text is the named rendering.
#[verifier::external_body]
pub(crate) fn format_hour_stamp(secs: i64) -> (s: String)
    requires
        MIN_UTC_SECS <= secs <= MAX_UTC_SECS,
    ensures
        s@ == hour_stamp(secs),
{
    chrono::DateTime::from_timestamp(secs, 0).unwrap().format("%Y-%m-%dT%H").to_string()
}

} // verus!
