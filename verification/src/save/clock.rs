//! Time sources for save and checkpoint timestamps.
//!
//! Production uses [`SystemClock`] (UTC); tests use [`FakeClock`], whose
//! timestamps come from a counter so that they are distinct and repeatable.

use std::sync::atomic::{AtomicU64, Ordering};

use vstd::prelude::*;

use crate::text::{dec, join3, pad2, u64_pad2};

verus! {

/// A time source.
pub trait Clock: Send + Sync {
    /// ISO 8601 timestamp, such as `2026-06-16T12:00:00Z`.
    fn now_iso(&self) -> String;

    /// File-name-safe timestamp, such as `20260616T120000Z`.
    fn now_stamp(&self) -> String;
}

/// The current UTC time rendered by chrono with `fmt`.
///
/// Calls `chrono::Utc::now()` and renders it with `DateTime::format`. The
/// digits depend on the time of the call and are left unsaid; what holds of
/// every reading is that the text ends with the literal `Z` that both
/// accepted patterns end with. They are valid strftime patterns, on which
/// the rendering does not fail.
#[verifier::external_body]
fn utc_now_formatted(fmt: &str) -> (r: String)
    requires
        fmt@ == "%Y-%m-%dT%H:%M:%SZ"@ || fmt@ == "%Y%m%dT%H%M%SZ"@,
    ensures
        r@.len() > 0 && r@.last() == 'Z',
{
    chrono::Utc::now().format(fmt).to_string()
}

/// The system clock, in UTC.
#[derive(Debug, Default, Clone, Copy)]
pub struct SystemClock;

impl Clock for SystemClock {
    fn now_iso(&self) -> (r: String)
        ensures
            r@.len() > 0 && r@.last() == 'Z',
    {
        utc_now_formatted("%Y-%m-%dT%H:%M:%SZ")
    }

    fn now_stamp(&self) -> (r: String)
        ensures
            r@.len() > 0 && r@.last() == 'Z',
    {
        utc_now_formatted("%Y%m%dT%H%M%SZ")
    }
}

/// The fake ISO timestamp for tick `n`: minutes and seconds of the tick
/// within the first hour of 2026-01-01.
pub open spec fn fake_iso(n: nat) -> Seq<char> {
    "2026-01-01T00:"@ + pad2(dec((n / 60) % 60)) + ":"@ + pad2(dec(n % 60)) + "Z"@
}

/// The fake file-name stamp for tick `n`.
pub open spec fn fake_stamp(n: nat) -> Seq<char> {
    "20260101T0000"@ + pad2(dec(n)) + "Z"@
}

/// The fake ISO timestamp of a tick.
pub fn fake_iso_at(n: u64) -> (r: String)
    ensures
        r@ == fake_iso(n as nat),
{
    let mm = u64_pad2((n / 60) % 60);
    let ss = u64_pad2(n % 60);
    let mut r = join3("2026-01-01T00:", mm.as_str(), ":");
    r.append(ss.as_str());
    r.append("Z");
    r
}

/// The fake file-name stamp of a tick.
pub fn fake_stamp_at(n: u64) -> (r: String)
    ensures
        r@ == fake_stamp(n as nat),
{
    let d = u64_pad2(n);
    join3("20260101T0000", d.as_str(), "Z")
}

/// A test clock: every reading takes the next tick of a counter that starts
/// at 0.
#[derive(Debug)]
pub struct FakeClock {
    base: AtomicU64,
}

impl FakeClock {
    /// A fake clock at tick 0.
    pub fn new() -> Self {
        FakeClock { base: AtomicU64::new(0) }
    }

    fn next(&self) -> u64 {
        self.base.fetch_add(1, Ordering::SeqCst)
    }
}

impl Clock for FakeClock {
    fn now_iso(&self) -> (r: String)
        ensures
            exists|n: nat| r@ == fake_iso(n),
    {
        let n = self.next();
        fake_iso_at(n)
    }

    fn now_stamp(&self) -> (r: String)
        ensures
            exists|n: nat| r@ == fake_stamp(n),
    {
        let n = self.next();
        fake_stamp_at(n)
    }
}

} // verus!
