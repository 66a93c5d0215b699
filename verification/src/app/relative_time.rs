//! Time stamps shown as how long ago they were.

use vstd::prelude::*;

use crate::text::{concat2, copy_str, decimal_seq, u64_to_string};

verus! {

/// How long ago an elapsed number of seconds is, in the largest unit that
/// fits (a month is 30 days, 2 592 000 seconds; a year 365 days, 31 536 000 seconds).
pub open spec fn relative_text(secs: int) -> Seq<char> {
    if secs < 60 {
        "just now"@
    } else if secs < 3600 {
        decimal_seq((secs / 60) as nat) + " min ago"@
    } else if secs < 86_400 {
        decimal_seq((secs / 3600) as nat) + " hours ago"@
    } else if secs < 2_592_000 {
        decimal_seq((secs / 86_400) as nat) + " days ago"@
    } else if secs < 31_536_000 {
        decimal_seq((secs / 2_592_000) as nat) + " months ago"@
    } else {
        decimal_seq((secs / 31_536_000) as nat) + " years ago"@
    }
}

/// How long ago `secs` seconds are, in the largest unit of which at least
/// one whole fits: the count is the number of whole units elapsed, never
/// zero, and under a minute is "just now".
pub proof fn lemma_relative_text_units(secs: int)
    ensures
        secs < 60 ==> relative_text(secs) == "just now"@,
        60 <= secs < 3600 ==> exists|n: nat|
            1 <= n < 60 && n * 60 <= secs < n * 60 + 60 && relative_text(secs) == decimal_seq(n)
                + " min ago"@,
        3600 <= secs < 86_400 ==> exists|n: nat|
            1 <= n < 24 && n * 3600 <= secs < n * 3600 + 3600 && relative_text(secs) == decimal_seq(
                n,
            ) + " hours ago"@,
        86_400 <= secs < 2_592_000 ==> exists|n: nat|
            1 <= n < 30 && n * 86_400 <= secs < n * 86_400 + 86_400 && relative_text(secs)
                == decimal_seq(n) + " days ago"@,
        2_592_000 <= secs < 31_536_000 ==> exists|n: nat|
            1 <= n <= 12 && n * 2_592_000 <= secs < n * 2_592_000 + 2_592_000 && relative_text(secs)
                == decimal_seq(n) + " months ago"@,
        31_536_000 <= secs ==> exists|n: nat|
            1 <= n && n * 31_536_000 <= secs < n * 31_536_000 + 31_536_000 && relative_text(secs)
                == decimal_seq(n) + " years ago"@,
{
    if 60 <= secs < 3600 {
        let n = (secs / 60) as nat;
        assert(relative_text(secs) == decimal_seq(n) + " min ago"@);
        assert(1 <= n < 60 && n * 60 <= secs < n * 60 + 60);
    } else if 3600 <= secs < 86_400 {
        let n = (secs / 3600) as nat;
        assert(relative_text(secs) == decimal_seq(n) + " hours ago"@);
        assert(1 <= n < 24 && n * 3600 <= secs < n * 3600 + 3600);
    } else if 86_400 <= secs < 2_592_000 {
        let n = (secs / 86_400) as nat;
        assert(relative_text(secs) == decimal_seq(n) + " days ago"@);
        assert(1 <= n < 30 && n * 86_400 <= secs < n * 86_400 + 86_400);
    } else if 2_592_000 <= secs < 31_536_000 {
        let n = (secs / 2_592_000) as nat;
        assert(relative_text(secs) == decimal_seq(n) + " months ago"@);
        assert(1 <= n <= 12 && n * 2_592_000 <= secs < n * 2_592_000 + 2_592_000);
    } else if 31_536_000 <= secs {
        let n = (secs / 31_536_000) as nat;
        assert(relative_text(secs) == decimal_seq(n) + " years ago"@);
        assert(1 <= n && n * 31_536_000 <= secs < n * 31_536_000 + 31_536_000);
    }
}

fn relative_text_of(secs: u128) -> (r: String)
    requires
        secs < 0x1_0000_0000_0000_0000_0000,
    ensures
        r@ == relative_text(secs as int),
{
    if secs < 60 {
        "just now".to_owned()
    } else if secs < 3600 {
        let n = u64_to_string((secs / 60) as u64);
        concat2(n.as_str(), " min ago")
    } else if secs < 86_400 {
        let n = u64_to_string((secs / 3600) as u64);
        concat2(n.as_str(), " hours ago")
    } else if secs < 2_592_000 {
        let n = u64_to_string((secs / 86_400) as u64);
        concat2(n.as_str(), " days ago")
    } else if secs < 31_536_000 {
        let n = u64_to_string((secs / 2_592_000) as u64);
        concat2(n.as_str(), " months ago")
    } else {
        let n = u64_to_string((secs / 31_536_000) as u64);
        concat2(n.as_str(), " years ago")
    }
}

/// How long ago `secs` seconds are; a negative count is taken as none.
pub fn relative_time_text(secs: i64) -> (r: String)
    ensures
        r@ == relative_text(if secs < 0 {
            0
        } else {
            secs as int
        }),
{
    if secs < 0 {
        relative_text_of(0)
    } else {
        relative_text_of(secs as u128)
    }
}

/// What `chrono` reads of a time stamp as a UTC date and time
/// (`DateTime<Utc>` from a string): seconds since the epoch and nanoseconds
/// within the second; `None` when the text is no time stamp.
pub uninterp spec fn utc_instant(text: Seq<char>) -> Option<(i64, u32)>;

/// `str::parse::<chrono::DateTime<chrono::Utc>>`; of the result its
/// `timestamp` and `timestamp_subsec_nanos`. Claimed: the result is
/// `utc_instant` of the text.
#[verifier::external_body]
fn parse_utc(text: &str) -> (r: Option<(i64, u32)>)
    ensures
        r == utc_instant(text@),
{
    match text.parse::<chrono::DateTime<chrono::Utc>>() {
        Ok(value) => Some((value.timestamp(), value.timestamp_subsec_nanos())),
        Err(_) => None,
    }
}

/// The system clock's time, a value the library only carries through.
#[verifier::external_type_specification]
#[verifier::external_body]
pub struct ExSystemTime(std::time::SystemTime);

/// `std::time::SystemTime::now`: the clock. Nothing is claimed of it.
#[verifier::external_body]
fn system_now() -> (r: std::time::SystemTime) {
    std::time::SystemTime::now()
}

/// `SystemTime::duration_since(UNIX_EPOCH)`, each `Duration` as its whole
/// seconds and the nanoseconds within the second: `Ok` for a time at or
/// after the epoch, `Err` with how long before the epoch it is (the
/// error's `duration`) otherwise. Claimed: the nanoseconds are under one
/// second, as `Duration::subsec_nanos` documents; the rest depends on the
/// clock.
#[verifier::external_body]
fn since_epoch(time: &std::time::SystemTime) -> (r: Result<(u64, u32), (u64, u32)>)
    ensures
        match r {
            Ok(p) => p.1 < 1_000_000_000,
            Err(p) => p.1 < 1_000_000_000,
        },
{
    match time.duration_since(std::time::UNIX_EPOCH) {
        Ok(elapsed) => Ok((elapsed.as_secs(), elapsed.subsec_nanos())),
        Err(error) => {
            let before = error.duration();
            Err((before.as_secs(), before.subsec_nanos()))
        },
    }
}

/// The clock as seconds since the epoch (negative before it, the
/// nanoseconds counted forward within the second), held to what an `i64`
/// counts.
fn clock_now() -> (r: (i64, u32))
    ensures
        r.1 < 1_000_000_000,
{
    match since_epoch(&system_now()) {
        Ok((secs, nanos)) => if secs <= 0x7fff_ffff_ffff_ffff {
            (secs as i64, nanos)
        } else {
            (0x7fff_ffff_ffff_ffff, nanos)
        },
        Err((secs, nanos)) => {
            let whole: i128 = if nanos > 0 {
                -(secs as i128) - 1
            } else {
                -(secs as i128)
            };
            let rest: u32 = if nanos > 0 {
                1_000_000_000 - nanos
            } else {
                0
            };
            if whole >= -0x8000_0000_0000_0000 {
                (whole as i64, rest)
            } else {
                (-0x8000_0000_0000_0000, 0)
            }
        },
    }
}

/// Whole seconds from `then` to `now`, rounded toward zero.
pub open spec fn whole_seconds_between(then: (i64, u32), now: (i64, u32)) -> int {
    let nanos = (now.0 - then.0) * 1_000_000_000 + (now.1 - then.1);
    if nanos >= 0 {
        nanos / 1_000_000_000
    } else {
        -((-nanos) / 1_000_000_000)
    }
}

/// The relative text of a time stamp at the instant `now`, or the text
/// itself when it is no time stamp.
pub open spec fn relative_time_at(iso: Seq<char>, instant: Option<(i64, u32)>, now: (i64, u32)) -> Seq<
    char,
> {
    match instant {
        None => iso,
        Some(then) => {
            let secs = whole_seconds_between(then, now);
            relative_text(if secs < 0 {
                0
            } else {
                secs
            })
        },
    }
}

/// Formats a time stamp, given what it reads as, at the instant `now`.
pub fn format_at(iso: &str, instant: Option<(i64, u32)>, now: (i64, u32)) -> (r: String)
    ensures
        r@ == relative_time_at(iso@, instant, now),
{
    match instant {
        None => copy_str(iso),
        Some(then) => {
            let nanos: i128 = (now.0 as i128 - then.0 as i128) * 1_000_000_000 + (now.1 as i128
                - then.1 as i128);
            let secs: i128 = if nanos >= 0 {
                nanos / 1_000_000_000
            } else {
                -((-nanos) / 1_000_000_000)
            };
            assert(secs < 0x1_0000_0000_0000_0000_0000) by (nonlinear_arith)
                requires
                    nanos == (now.0 - then.0) * 1_000_000_000 + (now.1 - then.1),
                    nanos >= 0 ==> secs == nanos / 1_000_000_000,
                    nanos < 0 ==> secs <= 0,
                    -0x8000_0000_0000_0000 <= now.0 < 0x8000_0000_0000_0000,
                    -0x8000_0000_0000_0000 <= then.0 < 0x8000_0000_0000_0000,
                    0 <= now.1 < 0x1_0000_0000,
                    0 <= then.1 < 0x1_0000_0000,
            ;
            if secs < 0 {
                relative_text_of(0)
            } else {
                relative_text_of(secs as u128)
            }
        },
    }
}

/// Formats a time stamp as how long ago it was, or gives it back unchanged
/// when it is no time stamp.
pub fn format(iso: &str) -> (r: String)
    ensures
        utc_instant(iso@) is None ==> r@ == iso@,
        exists|now: (i64, u32)| r@ == relative_time_at(iso@, utc_instant(iso@), now),
{
    let instant = parse_utc(iso);
    let now = clock_now();
    let r = format_at(iso, instant, now);
    assert(r@ == relative_time_at(iso@, utc_instant(iso@), now));
    r
}

} // verus!
