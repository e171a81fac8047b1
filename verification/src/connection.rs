//! How long to wait for a connection, and what to say when it fails.

use crate::text::{dec, decimal};
use vstd::prelude::*;

verus! {

/// The time limits of a connection attempt, in seconds.
#[derive(Debug, Clone, Copy, PartialEq, Eq, Structural)]
pub struct Limits {
    /// Per attempt and per request.
    pub each: u64,
    /// For the connection as a whole: name resolution and the one retry count.
    pub overall: u64,
}

/// A wrong host or port fails fast: each attempt has at least one second, and
/// the whole at most twice as long.
pub fn limits(timeout_secs: u64) -> (r: Limits)
    ensures
        r.each == (if timeout_secs == 0 {
            1
        } else {
            timeout_secs
        }),
        r.overall == (if 2 * r.each > u64::MAX {
            u64::MAX as int
        } else {
            2 * r.each
        }),
        r.each >= 1,
        r.overall >= r.each,
{
    let each: u64 = if timeout_secs == 0 {
        1
    } else {
        timeout_secs
    };
    let overall: u64 = if each > u64::MAX / 2 {
        u64::MAX
    } else {
        2 * each
    };
    Limits { each, overall }
}

/// The server refused or the connection broke.
pub fn refused(e: &str) -> (r: String)
    ensures
        r@ == "could not connect to redis: "@ + e@,
{
    let mut r = "could not connect to redis: ".to_owned();
    r.append(e);
    r
}

/// Nobody answered in time.
pub fn timed_out(limits: &Limits) -> (r: String)
    ensures
        r@ == "connection timed out after "@ + dec(limits.overall as nat)
            + "s — check the host/port in --url"@,
{
    let mut r = "connection timed out after ".to_owned();
    r.append(decimal(limits.overall as u128).as_str());
    r.append("s — check the host/port in --url");
    r
}

/// The URL cannot be used.
pub fn bad_url(url: &str, e: &str) -> (r: String)
    ensures
        r@ == "invalid redis url "@ + url@ + ": "@ + e@,
{
    let mut r = "invalid redis url ".to_owned();
    r.append(url);
    r.append(": ");
    r.append(e);
    r
}

} // verus!
