//! Wall-clock instants and the `HH:MM` labels of the chat log.

use vstd::prelude::*;
use crate::digits::{push_padded2, pad2_spec};
use chrono::{TimeZone, Timelike};

verus! {

/// An instant as seconds and nanoseconds since the Unix epoch (UTC).
#[derive(Clone, Copy, PartialEq, Eq, Structural, Debug)]
pub struct UtcTime {
    pub secs: i64,
    pub nanos: u32,
}

impl View for UtcTime {
    type V = UtcTime;

    open spec fn view(&self) -> UtcTime {
        *self
    }
}

/// Nanoseconds since the epoch.
pub open spec fn total_nanos(t: UtcTime) -> int {
    t.secs * 1_000_000_000 + t.nanos
}

/// `a` is strictly later than `b` (the order of `DateTime<Utc>`).
pub open spec fn later(a: UtcTime, b: UtcTime) -> bool {
    a.secs > b.secs || (a.secs == b.secs && a.nanos > b.nanos)
}

pub fn is_later(a: UtcTime, b: UtcTime) -> (r: bool)
    ensures
        r == later(a, b),
{
    a.secs > b.secs || (a.secs == b.secs && a.nanos > b.nanos)
}

/// Whether more than `max_age_ms` milliseconds passed from `seen` to `now`
/// (an instant after `now` has no age).
pub open spec fn older_than(now: UtcTime, seen: UtcTime, max_age_ms: u64) -> bool {
    total_nanos(now) - total_nanos(seen) > max_age_ms * 1_000_000
}

pub fn is_older_than(now: UtcTime, seen: UtcTime, max_age_ms: u64) -> (r: bool)
    ensures
        r == older_than(now, seen, max_age_ms),
{
    let dsecs: i128 = now.secs as i128 - seen.secs as i128;
    let dnanos: i128 = now.nanos as i128 - seen.nanos as i128;
    let age: i128 = dsecs * 1_000_000_000 + dnanos;
    age > max_age_ms as i128 * 1_000_000
}

/// `std::time::SystemTime`, carried unopened from a clock read to
/// `since_epoch`.
#[verifier::external_type_specification]
#[verifier::external_body]
pub struct ExSystemTime(std::time::SystemTime);

/// `SystemTime::now()`: the system clock's current reading.
#[verifier::external_body]
fn system_now() -> (t: std::time::SystemTime) {
    std::time::SystemTime::now()
}

/// `SystemTime::duration_since(UNIX_EPOCH)`: how far a clock reading is from
/// the epoch, as whole seconds and sub-second nanoseconds; `Ok` at or after
/// the epoch, `Err` (the distance back) before it.
#[verifier::external_body]
fn since_epoch(t: &std::time::SystemTime) -> (r: Result<(u64, u32), (u64, u32)>)
    ensures
        match r {
            Ok((_, n)) => n < 1_000_000_000,
            Err((_, n)) => n < 1_000_000_000,
        },
{
    match t.duration_since(std::time::UNIX_EPOCH) {
        Ok(d) => Ok((d.as_secs(), d.subsec_nanos())),
        Err(e) => Err((e.duration().as_secs(), e.duration().subsec_nanos())),
    }
}

/// The instant that a reading of the system clock denotes: `Ok((s, n))` is
/// `s.n` seconds after the epoch, `Err((s, n))` that long before it; instants
/// beyond what `i64` seconds hold are cut to the nearest one it holds.
pub open spec fn clock_instant(r: Result<(u64, u32), (u64, u32)>) -> UtcTime {
    match r {
        Ok((s, n)) => if s <= i64::MAX {
            UtcTime { secs: s as i64, nanos: n }
        } else {
            UtcTime { secs: i64::MAX, nanos: n }
        },
        Err((s, n)) => if n == 0 {
            if s <= i64::MAX {
                UtcTime { secs: (-(s as int)) as i64, nanos: 0 }
            } else {
                UtcTime { secs: i64::MIN, nanos: 0 }
            }
        } else if s < i64::MAX {
            UtcTime { secs: (-(s as int) - 1) as i64, nanos: (1_000_000_000 - n) as u32 }
        } else {
            UtcTime { secs: i64::MIN, nanos: 0 }
        },
    }
}

/// The instant of a system clock reading.
pub fn instant_of_clock(r: Result<(u64, u32), (u64, u32)>) -> (t: UtcTime)
    requires
        match r {
            Ok((_, n)) => n < 1_000_000_000,
            Err((_, n)) => n < 1_000_000_000,
        },
    ensures
        t == clock_instant(r),
        t.nanos < 1_000_000_000,
{
    match r {
        Ok((s, n)) => {
            if s <= i64::MAX as u64 {
                UtcTime { secs: s as i64, nanos: n }
            } else {
                UtcTime { secs: i64::MAX, nanos: n }
            }
        },
        Err((s, n)) => {
            if n == 0 {
                if s <= i64::MAX as u64 {
                    UtcTime { secs: -(s as i64), nanos: 0 }
                } else {
                    UtcTime { secs: i64::MIN, nanos: 0 }
                }
            } else if s < i64::MAX as u64 {
                UtcTime { secs: -(s as i64) - 1, nanos: 1_000_000_000 - n }
            } else {
                UtcTime { secs: i64::MIN, nanos: 0 }
            }
        },
    }
}

/// The current time, read from the system clock.
pub(crate) fn utc_now() -> (t: UtcTime)
    ensures
        t.nanos < 1_000_000_000,
{
    let t = system_now();
    instant_of_clock(since_epoch(&t))
}

/// `chrono::Local.timestamp_opt(secs, 0).single()`: the local hour and
/// minute of an instant, when the local time zone maps it to one local time.
#[verifier::external_body]
fn local_hour_minute(secs: i64) -> (r: Option<(u32, u32)>)
    ensures
        r matches Some(hm) ==> hm.0 < 24 && hm.1 < 60,
{
    chrono::Local.timestamp_opt(secs, 0).single().map(|dt| (dt.hour(), dt.minute()))
}

/// The hour and minute in UTC of `secs` seconds after the epoch.
pub fn utc_hour_minute(secs: u64) -> (r: (u32, u32))
    ensures
        r.0 == (secs / 3600) % 24,
        r.1 == (secs / 60) % 60,
{
    (((secs / 3600) % 24) as u32, ((secs / 60) % 60) as u32)
}

/// The current local hour and minute: the local time of the system clock's
/// instant (the epoch for a clock before it), or its UTC hour and minute
/// when the local time zone gives no single local time for it.
fn current_hour_minute() -> (r: (u32, u32))
    ensures
        r.0 < 24 && r.1 < 60,
{
    let secs = lookup_secs(utc_now());
    match local_hour_minute(secs) {
        Some(hm) => hm,
        None => utc_hour_minute(secs as u64),
    }
}

/// `HH:MM`, each part zero-padded to two digits.
pub open spec fn clock_text(hour: nat, minute: nat) -> Seq<char> {
    pad2_spec(hour) + seq![':'] + pad2_spec(minute)
}

/// `format!("{:02}:{:02}", hour, minute)`.
pub fn format_clock(hour: u32, minute: u32) -> (r: String)
    ensures
        r@ == clock_text(hour as nat, minute as nat),
{
    let mut s = String::new();
    push_padded2(&mut s, hour);
    crate::text::push_char(&mut s, ':');
    push_padded2(&mut s, minute);
    assert(s@ =~= clock_text(hour as nat, minute as nat));
    s
}

/// The instant handed to the local-time lookup: whole seconds since the
/// epoch, instants before the epoch counting as the epoch.
pub fn lookup_secs(t: UtcTime) -> (s: i64)
    ensures
        s == (if t.secs < 0 {
            0
        } else {
            t.secs
        }),
{
    if t.secs < 0 {
        0
    } else {
        t.secs
    }
}

/// The label of a looked-up local time; when the lookup gave no single local
/// time, the current local time `now` is shown instead.
pub fn clock_label(looked_up: Option<(u32, u32)>, now: (u32, u32)) -> (r: String)
    ensures
        r@ == (match looked_up {
            Some(hm) => clock_text(hm.0 as nat, hm.1 as nat),
            None => clock_text(now.0 as nat, now.1 as nat),
        }),
{
    match looked_up {
        Some((h, m)) => format_clock(h, m),
        None => format_clock(now.0, now.1),
    }
}

/// Format an instant as local `HH:MM`: the local hour and minute of
/// `lookup_secs(time)`, or of the current time (`current_hour_minute`) when
/// the local time zone gives no single local time for it. Which hour and
/// minute those are depends on the machine's time zone.
pub fn format_time(time: UtcTime) -> (r: String)
    ensures
        exists|h: nat, m: nat| h < 24 && m < 60 && r@ == clock_text(h, m),
{
    let looked_up = local_hour_minute(lookup_secs(time));
    let now = match looked_up {
        Some(hm) => hm,
        None => current_hour_minute(),
    };
    let r = clock_label(looked_up, now);
    assert(now.0 < 24 && now.1 < 60 && r@ == clock_text(now.0 as nat, now.1 as nat));
    r
}

} // verus!
