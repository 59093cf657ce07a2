//! Spans of time and moments with a UTC offset.

use vstd::prelude::*;

verus! {

broadcast use vstd::string::group_string_axioms;

/// Nanoseconds in a second.
pub const NANOS_PER_SECOND: u64 = 1_000_000_000;

/// The earliest local time of a moment, midnight of the first day of the year -9999, in
/// nanoseconds from the local time 1970-01-01 00:00.
pub const MIN_LOCAL_NANOS: i128 = -377_705_116_800_000_000_000;

/// The latest local time of a moment, the last nanosecond of the year 9999.
pub const MAX_LOCAL_NANOS: i128 = 253_402_300_799_999_999_999;

/// The largest distance of a local time from UTC, in seconds.
pub const MAX_OFFSET_SECONDS: i32 = 93_599;

/// The remainder that `x` leaves in 64 unsigned bits.
pub open spec fn wrap_u64(x: int) -> u64 {
    (x % 0x1_0000_0000_0000_0000) as u64
}

/// The remainder that `x` leaves in 64 unsigned bits.
pub fn wrapping_u64(x: i128) -> (r: u64)
    ensures
        r == wrap_u64(x as int),
{
    if x >= 0 {
        (x as u128 % 0x1_0000_0000_0000_0000u128) as u64
    } else {
        let below: u128 = (-(x + 1)) as u128 % 0x1_0000_0000_0000_0000u128;
        (0xFFFF_FFFF_FFFF_FFFFu128 - below) as u64
    }
}

/// The whole milliseconds in a signed number of nanoseconds, rounded towards zero.
pub open spec fn whole_millis(nanos: int) -> int {
    if nanos >= 0 {
        nanos / 1_000_000
    } else {
        -((-nanos) / 1_000_000)
    }
}

/// The whole milliseconds in a signed number of nanoseconds, rounded towards zero.
pub fn whole_milliseconds(nanos: i128) -> (r: i128)
    requires
        nanos > i128::MIN,
    ensures
        r == whole_millis(nanos as int),
{
    if nanos >= 0 {
        (nanos as u128 / 1_000_000) as i128
    } else {
        -(((-nanos) as u128 / 1_000_000) as i128)
    }
}

/// A span of time: whole seconds and the nanoseconds beyond them.
#[derive(Clone, Copy, Debug, PartialEq, Eq, Structural)]
pub struct Duration {
    pub secs: u64,
    pub nanos: u32,
}

impl Duration {
    /// The nanoseconds make less than a second.
    pub open spec fn wf(self) -> bool {
        self.nanos < NANOS_PER_SECOND
    }

    /// The span in nanoseconds.
    pub open spec fn as_nanos(self) -> int {
        self.secs * NANOS_PER_SECOND + self.nanos
    }

    /// The span of no length.
    pub fn zero() -> (r: Self)
        ensures
            r == (Duration { secs: 0, nanos: 0 }),
    {
        Duration { secs: 0, nanos: 0 }
    }

    /// A span of whole seconds.
    pub fn from_secs(secs: u64) -> (r: Self)
        ensures
            r == (Duration { secs, nanos: 0 }),
    {
        Duration { secs, nanos: 0 }
    }

    /// A span of whole milliseconds.
    pub open spec fn of_millis(millis: u64) -> Self {
        Duration {
            secs: millis / 1000,
            nanos: (millis % 1000 * 1_000_000) as u32,
        }
    }

    /// A span of whole milliseconds.
    pub fn from_millis(millis: u64) -> (r: Self)
        ensures
            r == Self::of_millis(millis),
            r.wf(),
            r.as_nanos() == millis * 1_000_000,
    {
        Duration { secs: millis / 1000, nanos: ((millis % 1000) * 1_000_000) as u32 }
    }

    /// The whole milliseconds of the span, in 64 bits; what does not fit is cut off.
    pub fn as_millis_u64(self) -> (r: u64)
        ensures
            r == wrap_u64(self.secs * 1000 + self.nanos / 1_000_000),
    {
        let millis: u128 = self.secs as u128 * 1000 + (self.nanos / 1_000_000) as u128;
        (millis % 0x1_0000_0000_0000_0000u128) as u64
    }

    /// The sum of two spans.
    pub open spec fn sum(a: Self, b: Self) -> Self {
        let nanos = a.nanos + b.nanos;
        Duration {
            secs: (a.secs + b.secs + nanos / NANOS_PER_SECOND as int) as u64,
            nanos: (nanos % NANOS_PER_SECOND as int) as u32,
        }
    }

    /// Whether the sum of two spans can be represented.
    pub open spec fn sum_fits(a: Self, b: Self) -> bool {
        a.secs + b.secs + (a.nanos + b.nanos) / NANOS_PER_SECOND as int <= u64::MAX
    }

    /// The sum of two spans.
    pub fn plus(self, other: Self) -> (r: Self)
        requires
            self.wf(),
            other.wf(),
            Self::sum_fits(self, other),
        ensures
            r == Self::sum(self, other),
            r.wf(),
            r.as_nanos() == self.as_nanos() + other.as_nanos(),
    {
        let nanos: u32 = self.nanos + other.nanos;
        if nanos >= 1_000_000_000 {
            Duration { secs: self.secs + other.secs + 1, nanos: nanos - 1_000_000_000 }
        } else {
            Duration { secs: self.secs + other.secs, nanos }
        }
    }

    /// Whether this span is longer than the other.
    pub fn exceeds(self, other: Self) -> (r: bool)
        requires
            self.wf(),
            other.wf(),
        ensures
            r == (self.as_nanos() > other.as_nanos()),
    {
        self.secs > other.secs || (self.secs == other.secs && self.nanos > other.nanos)
    }
}

/// A moment, and the UTC offset of the place whose clock shows it.
#[derive(Clone, Copy, Debug, Eq)]
pub struct OffsetDateTime {
    /// Nanoseconds from 1970-01-01 00:00 UTC.
    pub unix_nanos: i128,
    /// Seconds by which the local clock is ahead of UTC.
    pub offset_seconds: i32,
}

/// Two moments are equal when they are the same instant, whatever their offsets.
impl PartialEq for OffsetDateTime {
    fn eq(&self, other: &Self) -> (r: bool) {
        self.unix_nanos == other.unix_nanos
    }
}

impl vstd::std_specs::cmp::PartialEqSpecImpl for OffsetDateTime {
    open spec fn obeys_eq_spec() -> bool {
        true
    }

    open spec fn eq_spec(&self, other: &Self) -> bool {
        self.unix_nanos == other.unix_nanos
    }
}

impl OffsetDateTime {
    /// What the local clock shows, in nanoseconds from its own 1970-01-01 00:00.
    pub open spec fn local_nanos(self) -> int {
        self.unix_nanos + self.offset_seconds * NANOS_PER_SECOND
    }

    /// The local time lies in the years from -9999 to 9999, and the offset is less than
    /// 26 hours.
    pub open spec fn wf(self) -> bool {
        &&& MIN_LOCAL_NANOS <= self.local_nanos() <= MAX_LOCAL_NANOS
        &&& -MAX_OFFSET_SECONDS <= self.offset_seconds <= MAX_OFFSET_SECONDS
    }

    /// The moment `nanos` later, on the same clock.
    pub open spec fn shifted(self, nanos: int) -> Self {
        OffsetDateTime { unix_nanos: (self.unix_nanos + nanos) as i128, ..self }
    }

    /// Whether the moment `nanos` later still has a local time in range.
    pub open spec fn can_shift(self, nanos: int) -> bool {
        MIN_LOCAL_NANOS <= self.local_nanos() + nanos <= MAX_LOCAL_NANOS
    }

    /// The moment with these values, if they are in range.
    pub fn new(unix_nanos: i128, offset_seconds: i32) -> (r: Option<Self>)
        ensures
            ({
                let t = OffsetDateTime { unix_nanos, offset_seconds };
                r == (if t.wf() {
                    Some(t)
                } else {
                    None
                })
            }),
    {
        if offset_seconds < -MAX_OFFSET_SECONDS || offset_seconds > MAX_OFFSET_SECONDS {
            return None;
        }
        let offset_nanos: i128 = offset_seconds as i128 * 1_000_000_000;
        if unix_nanos < MIN_LOCAL_NANOS - offset_nanos || unix_nanos > MAX_LOCAL_NANOS
            - offset_nanos {
            return None;
        }
        Some(OffsetDateTime { unix_nanos, offset_seconds })
    }

    /// The nanoseconds from `earlier` to this moment; negative if it is later.
    pub fn nanos_since(self, earlier: Self) -> (r: i128)
        requires
            self.wf(),
            earlier.wf(),
        ensures
            r == self.unix_nanos - earlier.unix_nanos,
    {
        self.unix_nanos - earlier.unix_nanos
    }

    /// The moment `nanos` later, on the same clock.
    pub fn plus_nanos(self, nanos: i128) -> (r: Self)
        requires
            self.wf(),
            self.can_shift(nanos as int),
        ensures
            r == self.shifted(nanos as int),
            r.unix_nanos == self.unix_nanos + nanos,
            r.wf(),
    {
        OffsetDateTime { unix_nanos: self.unix_nanos + nanos, offset_seconds: self.offset_seconds }
    }

    /// Whether the moment `nanos` later still has a local time in range.
    pub fn shift_fits(self, nanos: i128) -> (r: bool)
        requires
            self.wf(),
        ensures
            r == self.can_shift(nanos as int),
    {
        let local: i128 = self.unix_nanos + self.offset_seconds as i128 * 1_000_000_000;
        MIN_LOCAL_NANOS - local <= nanos && nanos <= MAX_LOCAL_NANOS - local
    }

    /// The earlier of two moments, the first if they are equal.
    pub open spec fn earlier_of(a: Self, b: Self) -> Self {
        if b.unix_nanos < a.unix_nanos {
            b
        } else {
            a
        }
    }

    /// The earlier of two moments, the first if they are equal.
    pub fn earlier(a: Self, b: Self) -> (r: Self)
        ensures
            r == Self::earlier_of(a, b),
    {
        if b.unix_nanos < a.unix_nanos {
            b
        } else {
            a
        }
    }
}

/// What `time::OffsetDateTime::parse` reads from a text under the ISO 8601 format: the
/// instant in nanoseconds and the UTC offset in seconds, or nothing where it fails.
pub uninterp spec fn iso8601_reading(text: Seq<char>) -> Option<(i128, i32)>;

/// `time::OffsetDateTime::parse` with the format `Iso8601`, whose configuration governs
/// formatting only. The contract names the result, a function of the text alone, and says
/// that what comes back is in the range of the crate's dates and offsets.
#[verifier::external_body]
pub(crate) fn parse_iso8601(text: &str) -> (r: Option<OffsetDateTime>)
    ensures
        match (r, iso8601_reading(text@)) {
            (Some(t), Some(reading)) => t.unix_nanos == reading.0 && t.offset_seconds == reading.1
                && t.wf(),
            (None, None) => true,
            _ => false,
        },
{
    time::OffsetDateTime::parse(text, &time::format_description::well_known::Iso8601::DEFAULT)
        .ok()
        .map(|t| OffsetDateTime {
            unix_nanos: t.unix_timestamp_nanos(),
            offset_seconds: t.offset().whole_seconds(),
        })
}

/// The moment in UTC that a number of seconds from 1970-01-01 denotes, if it lies in the
/// years from -9999 to 9999.
pub open spec fn unix_moment(seconds: int) -> Option<OffsetDateTime> {
    if -377_705_116_800 <= seconds <= 253_402_300_799 {
        Some(OffsetDateTime { unix_nanos: (seconds * 1_000_000_000) as i128, offset_seconds: 0 })
    } else {
        None
    }
}

/// `time::OffsetDateTime::from_unix_timestamp`: the moment so many seconds from
/// 1970-01-01 00:00 UTC, with the offset UTC; it fails when the year would leave the
/// range from -9999 to 9999.
#[verifier::external_body]
pub(crate) fn from_unix_timestamp(seconds: i64) -> (r: Option<OffsetDateTime>)
    ensures
        r == unix_moment(seconds as int),
{
    time::OffsetDateTime::from_unix_timestamp(seconds).ok().map(|t| OffsetDateTime {
        unix_nanos: t.unix_timestamp_nanos(),
        offset_seconds: t.offset().whole_seconds(),
    })
}

/// Whole milliseconds are cut off towards zero: what is left over is less than one of them
/// and has the sign of the whole.
pub proof fn law_milliseconds_are_cut_towards_zero(nanos: int)
    ensures
        nanos >= 0 ==> 0 <= nanos - whole_millis(nanos) * 1_000_000 < 1_000_000,
        nanos <= 0 ==> -1_000_000 < nanos - whole_millis(nanos) * 1_000_000 <= 0,
        whole_millis(-nanos) == -whole_millis(nanos),
{
}

/// A number that fits in 64 unsigned bits is left as it is, and numbers that differ by a
/// multiple of what does not fit leave the same.
pub proof fn law_wrapping_keeps_what_fits(x: int)
    ensures
        0 <= x <= u64::MAX ==> wrap_u64(x) == x,
        (x - wrap_u64(x)) % 0x1_0000_0000_0000_0000 == 0,
        wrap_u64(x + 0x1_0000_0000_0000_0000) == wrap_u64(x),
{
    vstd::arithmetic::div_mod::lemma_mod_add_multiples_vanish(x, 0x1_0000_0000_0000_0000);
    assert(x == (x / 0x1_0000_0000_0000_0000) * 0x1_0000_0000_0000_0000 + x
        % 0x1_0000_0000_0000_0000);
}

/// A span of milliseconds has as many seconds and nanoseconds as they make up.
pub proof fn law_span_of_milliseconds(millis: u64)
    ensures
        ({
            let d = Duration::of_millis(millis);
            &&& d.nanos < 1_000_000_000
            &&& d.secs * 1_000_000_000 + d.nanos == millis * 1_000_000
        }),
{
}

/// The sum of two spans has the nanoseconds of both, and can be represented exactly where
/// its seconds fit in 64 bits.
pub proof fn law_spans_add(a: Duration, b: Duration)
    requires
        a.nanos < 1_000_000_000,
        b.nanos < 1_000_000_000,
    ensures
        ({
            let total = (a.secs + b.secs) * 1_000_000_000 + a.nanos + b.nanos;
            let sum = Duration::sum(a, b);
            &&& Duration::sum_fits(a, b) <==> total < (u64::MAX + 1) * 1_000_000_000
            &&& Duration::sum_fits(a, b) ==> sum.nanos < 1_000_000_000 && sum.secs * 1_000_000_000
                + sum.nanos == total
        }),
{
}

/// Of two moments the earlier one is one of them and is later than neither; of two that are
/// the same instant it is the first.
pub proof fn law_earlier_is_not_later(a: OffsetDateTime, b: OffsetDateTime)
    ensures
        ({
            let t = OffsetDateTime::earlier_of(a, b);
            &&& t == a || t == b
            &&& t.unix_nanos <= a.unix_nanos
            &&& t.unix_nanos <= b.unix_nanos
            &&& a.unix_nanos == b.unix_nanos ==> t == a
        }),
{
}

/// Moving a moment moves its instant by so much and leaves its clock where it is; moving it
/// twice is moving it by both.
pub proof fn law_moments_move(t: OffsetDateTime, a: int, b: int)
    requires
        t.wf(),
        t.can_shift(a),
        t.can_shift(a + b),
    ensures
        t.shifted(a).unix_nanos == t.unix_nanos + a,
        t.shifted(a).offset_seconds == t.offset_seconds,
        t.shifted(a).wf(),
        t.shifted(a).can_shift(b),
        t.shifted(a).shifted(b) == t.shifted(a + b),
{
}

/// A span counts its seconds and its nanoseconds, and spans of one number of nanoseconds are
/// the same.
pub proof fn law_spans_count_nanoseconds(a: Duration, b: Duration)
    ensures
        a.as_nanos() == a.secs * 1_000_000_000 + a.nanos,
        a.wf() <==> a.nanos < 1_000_000_000,
        a.wf() && b.wf() && a.as_nanos() == b.as_nanos() ==> a == b,
{
}

/// A moment is in range where its local clock shows a year from -9999 to 9999 and is less
/// than 26 hours from UTC.
pub proof fn law_range_of_moments(t: OffsetDateTime)
    ensures
        t.wf() <==> -93_600 < t.offset_seconds < 93_600 && -377_705_116_800_000_000_000
            <= t.unix_nanos + t.offset_seconds * 1_000_000_000 < 253_402_300_800_000_000_000,
{
}

/// Two moments are compared as equal exactly where they are one instant.
pub proof fn law_equality_of_moments(a: OffsetDateTime, b: OffsetDateTime)
    ensures
        vstd::std_specs::cmp::PartialEqSpec::eq_spec(&a, &b) <==> a.unix_nanos == b.unix_nanos,
{
}

} // verus!
