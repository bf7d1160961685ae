//! UTC instants as stored in rows, protocol timestamps, and the conversions
//! between them.
use chrono::TimeZone;
use vstd::prelude::*;

verus! {

/// The earliest second that chrono turns into a UTC instant:
/// -262143-01-01T00:00:00Z.
pub const MIN_UTC_SECONDS: i64 = -8_334_601_228_800;

/// The latest second that chrono turns into a UTC instant:
/// +262142-12-31T23:59:59Z.
pub const MAX_UTC_SECONDS: i64 = 8_210_266_876_799;

/// One second in nanoseconds.
pub const NANOS_PER_SECOND: i64 = 1_000_000_000;

/// Whether chrono accepts `secs` seconds and `nanos` nanoseconds since the
/// Unix epoch as a UTC instant: the second lies in its calendar range, and the
/// nanoseconds stay under one second, or under two seconds for the leap second
/// that ends a minute.
pub open spec fn chrono_accepts(secs: int, nanos: int) -> bool {
    &&& MIN_UTC_SECONDS <= secs <= MAX_UTC_SECONDS
    &&& 0 <= nanos
    &&& (nanos < 1_000_000_000 || (nanos < 2_000_000_000 && secs % 60 == 59))
}

/// `chrono::Utc.timestamp_opt(secs, nanos).single()`, read back with
/// `timestamp()` and `timestamp_subsec_nanos()`.
///
/// Trusted: chrono returns an instant exactly when `chrono_accepts` holds
/// (`DateTime::from_timestamp` checks the day range and
/// `NaiveTime::from_num_seconds_from_midnight_opt` the nanoseconds), and the
/// instant reads back as the same seconds and nanoseconds.
#[verifier::external_body]
fn chrono_timestamp_opt(secs: i64, nanos: u32) -> (r: Option<(i64, u32)>)
    ensures
        r is Some <==> chrono_accepts(secs as int, nanos as int),
        r matches Some(p) ==> p == (secs, nanos),
{
    match chrono::Utc.timestamp_opt(secs, nanos).single() {
        Some(dt) => Some((dt.timestamp(), dt.timestamp_subsec_nanos())),
        None => None,
    }
}

/// `chrono::Utc::now()`, read back with `timestamp()` and
/// `timestamp_subsec_nanos()`.
///
/// Trusted: the reading is an instant chrono can represent, at or after the
/// Unix epoch (chrono takes the system clock's duration since the epoch and
/// panics on a clock set before it) and outside any leap second (the
/// nanoseconds come from `Duration::subsec_nanos`, always under one second).
/// Which instant it is depends on the clock and is left unsaid.
#[verifier::external_body]
fn chrono_now() -> (r: (i64, u32))
    ensures
        chrono_accepts(r.0 as int, r.1 as int),
        r.0 >= 0,
        r.1 < 1_000_000_000,
{
    let dt = chrono::Utc::now();
    (dt.timestamp(), dt.timestamp_subsec_nanos())
}

/// A UTC instant: whole seconds since the Unix epoch and the nanoseconds past
/// them, always one that chrono can represent.
#[derive(Clone, Copy, Debug, PartialEq, Eq)]
pub struct UtcDateTime {
    secs: i64,
    nanos: u32,
}

impl UtcDateTime {
    #[verifier::type_invariant]
    spec fn inv(self) -> bool {
        chrono_accepts(self.secs as int, self.nanos as int)
    }

    /// The seconds since the Unix epoch.
    pub closed spec fn seconds(self) -> i64 {
        self.secs
    }

    /// The nanoseconds past the second.
    pub closed spec fn subsec_nanos(self) -> u32 {
        self.nanos
    }

    /// The instant with these parts.
    pub closed spec fn from_parts(secs: i64, nanos: u32) -> UtcDateTime {
        UtcDateTime { secs, nanos }
    }

    /// An instant is determined by its parts.
    pub broadcast proof fn lemma_parts(secs: i64, nanos: u32)
        ensures
            #[trigger] UtcDateTime::from_parts(secs, nanos).seconds() == secs,
            UtcDateTime::from_parts(secs, nanos).subsec_nanos() == nanos,
    {
    }

    /// Two instants with the same parts are the same instant.
    pub broadcast proof fn lemma_same_parts(a: UtcDateTime)
        ensures
            #[trigger] UtcDateTime::from_parts(a.seconds(), a.subsec_nanos()) == a,
    {
    }

    /// The instant `secs` seconds and `nanos` nanoseconds after the Unix
    /// epoch, when chrono accepts it.
    pub fn from_timestamp(secs: i64, nanos: u32) -> (r: Option<UtcDateTime>)
        ensures
            r == if chrono_accepts(secs as int, nanos as int) {
                Some(UtcDateTime::from_parts(secs, nanos))
            } else {
                None
            },
    {
        match chrono_timestamp_opt(secs, nanos) {
            Some(p) => Some(UtcDateTime { secs: p.0, nanos: p.1 }),
            None => None,
        }
    }

    /// The current instant of the system clock: one at or after the Unix
    /// epoch and outside any leap second; which one is up to the clock.
    pub fn now() -> (r: UtcDateTime)
        ensures
            chrono_accepts(r.seconds() as int, r.subsec_nanos() as int),
            r.seconds() >= 0,
            r.subsec_nanos() < 1_000_000_000,
    {
        let p = chrono_now();
        UtcDateTime { secs: p.0, nanos: p.1 }
    }

    /// `DateTime::timestamp`: the seconds since the Unix epoch.
    pub fn timestamp(&self) -> (r: i64)
        ensures
            r == self.seconds(),
            chrono_accepts(self.seconds() as int, self.subsec_nanos() as int),
    {
        proof {
            use_type_invariant(self);
        }
        self.secs
    }

    /// `DateTime::timestamp_subsec_nanos`: the nanoseconds past the second.
    pub fn timestamp_subsec_nanos(&self) -> (r: u32)
        ensures
            r == self.subsec_nanos(),
            r < 2_000_000_000,
    {
        proof {
            use_type_invariant(self);
        }
        self.nanos
    }
}

/// The protocol's `google.protobuf.Timestamp`.
#[derive(Clone, Copy, Debug, PartialEq, Eq)]
pub struct ProtoTimestamp {
    pub seconds: i64,
    pub nanos: i32,
}

/// The seconds and nanoseconds of `ts` once the nanoseconds are carried into
/// whole seconds, leaving them in `0..1_000_000_000`.
pub open spec fn normalized_seconds(ts: ProtoTimestamp) -> int {
    ts.seconds + ts.nanos as int / 1_000_000_000
}

/// The nanoseconds part of `normalized_seconds`.
pub open spec fn normalized_nanos(ts: ProtoTimestamp) -> int {
    ts.nanos as int % 1_000_000_000
}

/// The instant a protocol timestamp stands for, once normalized: `None` when
/// chrono cannot represent it.
pub open spec fn spec_proto_timestamp_to_datetime(ts: ProtoTimestamp) -> Option<(i64, u32)> {
    if chrono_accepts(normalized_seconds(ts), normalized_nanos(ts)) {
        Some((normalized_seconds(ts) as i64, normalized_nanos(ts) as u32))
    } else {
        None
    }
}

/// The instant a protocol timestamp stands for, as a value.
pub open spec fn spec_datetime_of(ts: ProtoTimestamp) -> Option<UtcDateTime> {
    match spec_proto_timestamp_to_datetime(ts) {
        Some(p) => Some(UtcDateTime::from_parts(p.0, p.1)),
        None => None,
    }
}

/// The protocol timestamp of an instant, as a value.
pub open spec fn spec_proto_of(dt: UtcDateTime) -> ProtoTimestamp {
    ProtoTimestamp { seconds: dt.seconds(), nanos: dt.subsec_nanos() as i32 }
}

/// `spec_datetime_of` for an optional timestamp.
pub open spec fn spec_opt_datetime_of(ts: Option<ProtoTimestamp>) -> Option<UtcDateTime> {
    match ts {
        Some(t) => spec_datetime_of(t),
        None => None,
    }
}

/// `spec_proto_of` for an optional instant.
pub open spec fn spec_opt_proto_of(dt: Option<UtcDateTime>) -> Option<ProtoTimestamp> {
    match dt {
        Some(d) => Some(spec_proto_of(d)),
        None => None,
    }
}

/// Reads a protocol timestamp as an instant. Nanoseconds outside
/// `0..1_000_000_000` are carried into the seconds first (in 64-bit
/// arithmetic, so every nanosecond value is accepted); the result is `None`
/// when the carried seconds leave `i64` or the instant lies outside chrono's
/// range.
pub fn proto_timestamp_to_datetime(ts: &ProtoTimestamp) -> (r: Option<UtcDateTime>)
    ensures
        r == spec_datetime_of(*ts),
{
    let n: i64 = ts.nanos as i64;
    let mut seconds: i64 = ts.seconds;
    let mut nanos: i64 = n;
    if n < 0 {
        let adjustment: i64 = (-n + 999_999_999) / NANOS_PER_SECOND;
        assert(adjustment == -(n as int / 1_000_000_000) && 1 <= adjustment <= 3) by (nonlinear_arith)
            requires
                n < 0,
                n >= -2_147_483_648,
                adjustment == (-n + 999_999_999) / 1_000_000_000,
        ;
        match seconds.checked_sub(adjustment) {
            Some(s) => {
                seconds = s;
            },
            None => {
                return None;
            },
        }
        nanos = n + adjustment * NANOS_PER_SECOND;
    } else if n >= NANOS_PER_SECOND {
        let adjustment: i64 = n / NANOS_PER_SECOND;
        match seconds.checked_add(adjustment) {
            Some(s) => {
                seconds = s;
            },
            None => {
                return None;
            },
        }
        nanos = n % NANOS_PER_SECOND;
    }
    assert(seconds == normalized_seconds(*ts) && nanos == normalized_nanos(*ts) && 0 <= nanos
        < 1_000_000_000) by {
        assert(n == 1_000_000_000 * (n / 1_000_000_000) + n % 1_000_000_000) by (nonlinear_arith);
        assert(0 <= n % 1_000_000_000 < 1_000_000_000) by (nonlinear_arith);
        if 0 <= n < 1_000_000_000 {
            assert(n / 1_000_000_000 == 0) by (nonlinear_arith)
                requires
                    0 <= n < 1_000_000_000,
            ;
        }
    }
    UtcDateTime::from_timestamp(seconds, nanos as u32)
}

/// The protocol timestamp of an instant.
pub fn datetime_to_proto_timestamp(dt: &UtcDateTime) -> (ts: ProtoTimestamp)
    ensures
        ts == spec_proto_of(*dt),
        ts.nanos >= 0,
{
    ProtoTimestamp { seconds: dt.timestamp(), nanos: dt.timestamp_subsec_nanos() as i32 }
}

/// `proto_timestamp_to_datetime` on an optional timestamp.
pub fn opt_proto_timestamp_to_datetime(ts: &Option<ProtoTimestamp>) -> (r: Option<UtcDateTime>)
    ensures
        r == spec_opt_datetime_of(*ts),
{
    match ts {
        Some(t) => proto_timestamp_to_datetime(t),
        None => None,
    }
}

/// `datetime_to_proto_timestamp` on an optional instant.
pub fn opt_datetime_to_proto_timestamp(dt: &Option<UtcDateTime>) -> (r: Option<ProtoTimestamp>)
    ensures
        r == spec_opt_proto_of(*dt),
{
    match dt {
        Some(d) => Some(datetime_to_proto_timestamp(d)),
        None => None,
    }
}

/// An instant that is not a leap second survives the trip through its
/// protocol timestamp.
pub proof fn lemma_datetime_proto_roundtrip(dt: UtcDateTime)
    requires
        chrono_accepts(dt.seconds() as int, dt.subsec_nanos() as int),
        dt.subsec_nanos() < 1_000_000_000,
    ensures
        spec_datetime_of(spec_proto_of(dt)) == Some(dt),
{
    UtcDateTime::lemma_same_parts(dt);
}

/// A normalized protocol timestamp inside chrono's range survives the trip
/// through an instant.
pub proof fn lemma_proto_datetime_roundtrip(ts: ProtoTimestamp)
    requires
        0 <= ts.nanos < 1_000_000_000,
        MIN_UTC_SECONDS <= ts.seconds <= MAX_UTC_SECONDS,
    ensures
        spec_datetime_of(ts) matches Some(dt) && spec_proto_of(dt) == ts,
{
    UtcDateTime::lemma_parts(ts.seconds, ts.nanos as u32);
}

/// An optional protocol timestamp that reads back unchanged: normalized and
/// inside chrono's range.
pub open spec fn stable_timestamp(ts: Option<ProtoTimestamp>) -> bool {
    match ts {
        Some(t) => 0 <= t.nanos < 1_000_000_000 && MIN_UTC_SECONDS <= t.seconds <= MAX_UTC_SECONDS,
        None => true,
    }
}

/// A stable optional timestamp survives the trip through an instant.
pub proof fn lemma_stable_timestamp_read_back(ts: Option<ProtoTimestamp>)
    requires
        stable_timestamp(ts),
    ensures
        spec_opt_proto_of(spec_opt_datetime_of(ts)) == ts,
{
    match ts {
        Some(t) => {
            lemma_proto_datetime_roundtrip(t);
        },
        None => {},
    }
}


/// An optional instant that reads back unchanged through a protocol
/// timestamp: one that chrono represents, outside a leap second.
pub open spec fn stable_instant(dt: Option<UtcDateTime>) -> bool {
    match dt {
        Some(d) => chrono_accepts(d.seconds() as int, d.subsec_nanos() as int) && d.subsec_nanos()
            < 1_000_000_000,
        None => true,
    }
}

/// A stable optional instant survives the trip through a protocol timestamp.
pub proof fn lemma_stable_instant_read_back(dt: Option<UtcDateTime>)
    requires
        stable_instant(dt),
    ensures
        spec_opt_datetime_of(spec_opt_proto_of(dt)) == dt,
{
    match dt {
        Some(d) => {
            lemma_datetime_proto_roundtrip(d);
        },
        None => {},
    }
}

} // verus!
