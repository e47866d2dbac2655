//! Points in time as Windows counts them: in ticks of one hundred nanoseconds since the
//! beginning of the year 1601.

use std::time::{Duration, SystemTime, UNIX_EPOCH};
use vstd::prelude::*;

verus! {

/// A point in time of the standard library.
#[verifier::external_type_specification]
#[verifier::external_body]
pub struct ExSystemTime(SystemTime);

/// The ticks between the beginning of 1601 and the Unix epoch.
pub const WINDOWS_EPOCH_OFFSET: u64 = 116_444_736_000_000_000;

/// The last tick that a signed 64-bit counter reaches, which is how far a Windows system
/// time goes.
pub const LAST_TICK: u64 = 0x7FFF_FFFF_FFFF_FFFF;

/// What `SystemTime::duration_since` says of a time and the Unix epoch: the whole seconds
/// and the remaining nanoseconds since the epoch, or nothing for an earlier time.
pub uninterp spec fn since_epoch(time: SystemTime) -> Option<(u64, u32)>;

/// Calls `SystemTime::duration_since` with the Unix epoch. Claims that the duration depends
/// on the time alone and that its nanoseconds make less than one second.
#[verifier::external_body]
fn duration_since_epoch(time: SystemTime) -> (parts: Option<(u64, u32)>)
    ensures
        parts == since_epoch(time),
        parts matches Some((_, nanos)) ==> nanos < 1_000_000_000,
{
    match time.duration_since(UNIX_EPOCH) {
        Ok(duration) => Some((duration.as_secs(), duration.subsec_nanos())),
        Err(_) => None,
    }
}

/// Adds a duration to the Unix epoch, by `Add` of `SystemTime`. Claims that reading the sum
/// against the epoch gives back the duration that was added. A system time is a count of
/// ticks on Windows, so the claim is made of whole ticks only, and only as far as that
/// count reaches: beyond it the addition panics.
#[verifier::external_body]
fn epoch_plus(secs: u64, nanos: u32) -> (time: SystemTime)
    requires
        nanos < 1_000_000_000,
        nanos % 100 == 0,
        filetime(secs, nanos) <= LAST_TICK,
    ensures
        since_epoch(time) == Some((secs, nanos)),
{
    UNIX_EPOCH + Duration::new(secs, nanos)
}

/// The tick that a Unix time falls into.
pub open spec fn filetime(secs: u64, nanos: u32) -> int {
    WINDOWS_EPOCH_OFFSET + secs * 10_000_000 + nanos / 100
}

/// Seconds and nanoseconds since the epoch, where an earlier time counts as the epoch.
pub open spec fn unix_time(time: SystemTime) -> (u64, u32) {
    match since_epoch(time) {
        Some(parts) => parts,
        None => (0, 0),
    }
}

/// Whether the nanoseconds of a system time make less than one second, as those of every time
/// do that was read against the epoch.
pub open spec fn proper(time: SystemTime) -> bool {
    since_epoch(time) matches Some((_, nanos)) ==> nanos < 1_000_000_000
}

/// Whether a system time is no later than another, as far as the epoch tells: a time before
/// the epoch is no later than any other.
pub open spec fn no_later(time: SystemTime, other: SystemTime) -> bool {
    match (since_epoch(time), since_epoch(other)) {
        (Some((secs, nanos)), Some((other_secs, other_nanos))) => secs < other_secs || (secs
            == other_secs && nanos <= other_nanos),
        (Some(_), None) => false,
        (None, _) => true,
    }
}

/// The tick that a system time falls into.
pub open spec fn time_tick(time: SystemTime) -> int {
    filetime(unix_time(time).0, unix_time(time).1)
}

/// The Unix time at which a tick begins; one before the epoch is taken for the epoch.
pub open spec fn tick_time(tick: u64) -> (u64, u32) {
    if tick <= WINDOWS_EPOCH_OFFSET {
        (0, 0)
    } else {
        let ticks = tick - WINDOWS_EPOCH_OFFSET;
        ((ticks / 10_000_000) as u64, (ticks % 10_000_000 * 100) as u32)
    }
}

/// The tick of a Unix time.
pub fn filetime_from_unix(secs: u64, nanos: u32) -> (tick: u64)
    requires
        filetime(secs, nanos) <= u64::MAX,
    ensures
        tick == filetime(secs, nanos),
{
    WINDOWS_EPOCH_OFFSET + secs * 10_000_000 + (nanos / 100) as u64
}

/// The tick of a system time, or nothing where the count would not fit.
pub fn checked_filetime(time: SystemTime) -> (tick: Option<u64>)
    ensures
        tick is Some <==> time_tick(time) <= u64::MAX,
        tick matches Some(tick) ==> tick == time_tick(time),
        proper(time),
{
    let (secs, nanos) = match duration_since_epoch(time) {
        Some(parts) => parts,
        None => (0, 0),
    };
    let last_second: u64 = (u64::MAX - WINDOWS_EPOCH_OFFSET) / 10_000_000;
    if secs > last_second {
        return None;
    }
    (WINDOWS_EPOCH_OFFSET + secs * 10_000_000).checked_add((nanos / 100) as u64)
}

/// The tick of a system time. A time before the Unix epoch counts as the epoch.
pub fn filetime_from_system_time(time: SystemTime) -> (tick: u64)
    requires
        time_tick(time) <= u64::MAX,
    ensures
        tick == time_tick(time),
        proper(time),
{
    let (secs, nanos) = match duration_since_epoch(time) {
        Some(parts) => parts,
        None => (0, 0),
    };
    filetime_from_unix(secs, nanos)
}

/// The Unix time at which a tick begins, as seconds and nanoseconds.
pub fn unix_from_filetime(tick: u64) -> (parts: (u64, u32))
    ensures
        parts == tick_time(tick),
        parts.1 < 1_000_000_000,
        parts.1 % 100 == 0,
{
    if tick <= WINDOWS_EPOCH_OFFSET {
        return (0, 0);
    }
    let ticks: u64 = tick - WINDOWS_EPOCH_OFFSET;
    (ticks / 10_000_000, ((ticks % 10_000_000) * 100) as u32)
}

/// The system time at which a tick begins. A tick before the Unix epoch gives the epoch.
pub fn system_time_from_filetime(tick: u64) -> (time: SystemTime)
    requires
        tick <= LAST_TICK,
    ensures
        since_epoch(time) == Some(tick_time(tick)),
        proper(time),
{
    let (secs, nanos) = unix_from_filetime(tick);
    proof {
        lemma_tick_round_trip(tick);
    }
    epoch_plus(secs, nanos)
}

/// Every tick from the Unix epoch on is the tick of the time at which it begins, and an
/// earlier one gives the tick of the epoch.
pub proof fn lemma_tick_round_trip(tick: u64)
    ensures
        filetime(tick_time(tick).0, tick_time(tick).1) == if tick < WINDOWS_EPOCH_OFFSET {
            WINDOWS_EPOCH_OFFSET
        } else {
            tick
        },
{
}

/// A Unix time comes back from its tick with its whole ticks: what is lost is the part of a
/// tick, and a time that is a whole number of ticks comes back unchanged.
pub proof fn lemma_unix_round_trip(secs: u64, nanos: u32)
    requires
        nanos < 1_000_000_000,
        filetime(secs, nanos) <= u64::MAX,
    ensures
        tick_time(filetime(secs, nanos) as u64) == (secs, (nanos - nanos % 100) as u32),
        nanos % 100 == 0 ==> tick_time(filetime(secs, nanos) as u64) == (secs, nanos),
{
}

/// A system time, taken to its tick and back, is the same time cut to a whole tick, or the
/// epoch for a time before it; two times of one tick come back alike.
pub proof fn lemma_system_time_round_trip(time: SystemTime, back: SystemTime)
    requires
        proper(time),
        time_tick(time) <= LAST_TICK,
        since_epoch(back) == Some(tick_time(time_tick(time) as u64)),
    ensures
        since_epoch(back) == Some(
            (
                unix_time(time).0,
                (unix_time(time).1 - unix_time(time).1 % 100) as u32,
            ),
        ),
        time_tick(back) == time_tick(time),
{
    lemma_unix_round_trip(unix_time(time).0, unix_time(time).1);
}

/// A later Unix time never has an earlier tick.
pub proof fn lemma_filetime_keeps_order(secs: u64, nanos: u32, later_secs: u64, later_nanos: u32)
    requires
        nanos < 1_000_000_000,
        later_nanos < 1_000_000_000,
        secs < later_secs || (secs == later_secs && nanos <= later_nanos),
    ensures
        filetime(secs, nanos) <= filetime(later_secs, later_nanos),
{
}

/// A later system time never has an earlier tick.
pub proof fn lemma_time_ticks_keep_order(time: SystemTime, later: SystemTime)
    requires
        proper(time),
        proper(later),
        no_later(time, later),
    ensures
        time_tick(time) <= time_tick(later),
{
    let (secs, nanos) = unix_time(time);
    let (later_secs, later_nanos) = unix_time(later);
    lemma_filetime_keeps_order(secs, nanos, later_secs, later_nanos);
}

/// A time from the Unix epoch on lies in its tick: not before the tick begins, and before the
/// next one does. An earlier time has the tick in which the epoch lies.
pub proof fn lemma_time_lies_in_its_tick(time: SystemTime)
    requires
        proper(time),
    ensures
        match since_epoch(time) {
            Some((secs, nanos)) => {
                let since = (time_tick(time) - 116_444_736_000_000_000) * 100;
                since <= secs * 1_000_000_000 + nanos < since + 100
            },
            None => time_tick(time) == 116_444_736_000_000_000,
        },
{
}

} // verus!
