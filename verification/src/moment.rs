//! Moments in time: the clock, the local offset, and dates as text.
//!
//! The clock and the time zone belong to the machine. What is made of them, the
//! moment at which a span runs out and how it is written, is computed from
//! plain numbers.

use crate::text::is_digit;
use vstd::prelude::*;

verus! {

/// The last second of chrono's calendar, counted from the Unix epoch.
pub const LAST_SECOND: i64 = 8_210_266_876_799;

/// A moment that the clock can show and the calendar holds.
pub open spec fn in_calendar(secs: i64) -> bool {
    0 <= secs <= LAST_SECOND
}

/// An offset from UTC in seconds: less than a day either way.
pub open spec fn is_offset(offset: i32) -> bool {
    -86_400 < offset < 86_400
}

/// A fraction of a second in nanoseconds.
pub open spec fn is_fraction(nanos: u32) -> bool {
    nanos < 1_000_000_000
}

/// The moment at which a span of `secs` seconds that begins at `now` runs out,
/// if the calendar holds it.
pub open spec fn instant_after(now: i64, secs: i64) -> Option<i64> {
    if now + secs <= LAST_SECOND {
        Some((now + secs) as i64)
    } else {
        None
    }
}

/// The moment at which a span of `secs` seconds that begins at `now` runs out.
pub fn expiry_instant(now: i64, secs: i64) -> (r: Option<i64>)
    requires
        secs >= 0,
    ensures
        r == instant_after(now, secs),
        now + secs <= 8_210_266_876_799 ==> r is Some && r->0 == now + secs,
        now + secs > 8_210_266_876_799 ==> r is None,
{
    let sum: i128 = now as i128 + secs as i128;
    if sum <= LAST_SECOND as i128 {
        Some(sum as i64)
    } else {
        None
    }
}

/// `s` ends in `-MM-DD HH:MM:SS`, each number with two digits.
pub open spec fn ends_in_time(s: Seq<char>) -> bool {
    let n = s.len();
    &&& n >= 15
    &&& s[n - 15] == '-'
    &&& s[n - 12] == '-'
    &&& s[n - 9] == ' '
    &&& s[n - 6] == ':'
    &&& s[n - 3] == ':'
    &&& forall|k: int|
        #![trigger s[k]]
        n - 15 < k < n && k != n - 12 && k != n - 9 && k != n - 6 && k != n - 3 ==> is_digit(s[k])
}

/// `s` ends in a UTC offset such as `+02:00`.
pub open spec fn ends_in_offset(s: Seq<char>) -> bool {
    let n = s.len();
    &&& n >= 6
    &&& s[n - 6] == '+' || s[n - 6] == '-'
    &&& is_digit(s[n - 5])
    &&& is_digit(s[n - 4])
    &&& s[n - 3] == ':'
    &&& is_digit(s[n - 2])
    &&& is_digit(s[n - 1])
}

/// `chrono::Utc::now`: the seconds since the Unix epoch and the nanoseconds
/// beyond them. The reading is not before the epoch and is in the calendar;
/// what it is rests on the clock.
#[verifier::external_body]
pub(crate) fn read_clock() -> (r: (i64, u32))
    ensures
        in_calendar(r.0),
        is_fraction(r.1),
{
    let now = chrono::Utc::now();
    (now.timestamp(), now.timestamp_subsec_nanos())
}

/// The offset that `chrono::Local` has from UTC at the moment `secs`, in
/// seconds. It is less than a day; what it is rests on the machine's time zone.
#[verifier::external_body]
pub(crate) fn local_offset(secs: i64) -> (r: i32)
    requires
        in_calendar(secs),
    ensures
        is_offset(r),
{
    let at = chrono::DateTime::from_timestamp(secs, 0).unwrap();
    at.with_timezone(&chrono::Local).offset().local_minus_utc()
}

/// A call of the clock has given this reading.
pub closed spec fn clock_gave(secs: i64, nanos: u32) -> bool {
    call_ensures(read_clock, (), (secs, nanos))
}

/// Asking for the local offset at the moment `secs` has given this one.
pub closed spec fn zone_gave(secs: i64, offset: i32) -> bool {
    call_ensures(local_offset, (secs,), offset)
}

fn ask<R, F: Fn() -> R>(f: F) -> (r: R)
    requires
        call_requires(f, ()),
    ensures
        call_ensures(f, (), r),
{
    f()
}

fn ask_of<A, R, F: Fn(A) -> R>(f: F, a: A) -> (r: R)
    requires
        call_requires(f, (a,)),
    ensures
        call_ensures(f, (a,), r),
{
    f(a)
}

/// The clock's reading: seconds since the Unix epoch and nanoseconds.
pub(crate) fn now() -> (r: (i64, u32))
    ensures
        clock_gave(r.0, r.1),
        in_calendar(r.0),
        is_fraction(r.1),
{
    ask(read_clock)
}

/// The local offset at the moment `secs`.
pub(crate) fn offset_at(secs: i64) -> (r: i32)
    requires
        in_calendar(secs),
    ensures
        zone_gave(secs, r),
        is_offset(r),
{
    ask_of(local_offset, secs)
}

/// How chrono writes the moment `secs`, seen `offset` seconds east of UTC, as
/// `%Y-%m-%d %H:%M:%S`.
pub uninterp spec fn local_text(secs: i64, offset: i32) -> Seq<char>;

/// `chrono::DateTime::format` with `%Y-%m-%d %H:%M:%S`, at a fixed offset: the
/// text depends on the moment and the offset alone, and ends in month, day and
/// time of day with two digits each.
#[verifier::external_body]
pub(crate) fn write_local(secs: i64, offset: i32) -> (r: String)
    requires
        in_calendar(secs),
        is_offset(offset),
    ensures
        r@ == local_text(secs, offset),
        ends_in_time(r@),
{
    let zone = chrono::FixedOffset::east_opt(offset).unwrap();
    let at = chrono::DateTime::from_timestamp(secs, 0).unwrap();
    at.with_timezone(&zone).format("%Y-%m-%d %H:%M:%S").to_string()
}

/// How chrono writes the moment `secs` and `nanos`, seen `offset` seconds east
/// of UTC, in RFC 3339.
pub uninterp spec fn rfc3339_text(secs: i64, nanos: u32, offset: i32) -> Seq<char>;

/// `chrono::DateTime::to_rfc3339` at a fixed offset: the text depends on the
/// moment and the offset alone, and ends in the offset.
#[verifier::external_body]
pub(crate) fn write_rfc3339(secs: i64, nanos: u32, offset: i32) -> (r: String)
    requires
        in_calendar(secs),
        is_fraction(nanos),
        is_offset(offset),
    ensures
        r@ == rfc3339_text(secs, nanos, offset),
        ends_in_offset(r@),
{
    let zone = chrono::FixedOffset::east_opt(offset).unwrap();
    chrono::DateTime::from_timestamp(secs, nanos).unwrap().with_timezone(&zone).to_rfc3339()
}

} // verus!
