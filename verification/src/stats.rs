//! The integer figures of the system statistics: uptime, memory and root
//! disk, in the units the dashboard shows.

use vstd::prelude::*;

verus! {

/// Bytes per megabyte as memory figures are reported (decimal).
pub const MEMORY_UNIT: u64 = 1_000_000;

/// Bytes per megabyte as disk figures are reported (binary).
pub const DISK_UNIT: u64 = 1048576;

/// Uptime, whole and broken into days, hours and minutes.
pub struct UptimeStats {
    pub seconds: u64,
    pub days: u64,
    pub hours: u64,
    pub minutes: u64,
}

/// Memory figures in megabytes, with the used share in percent.
pub struct MemoryStats {
    pub total: u64,
    pub used: u64,
    pub available: u64,
    pub percent: u64,
}

/// Root-disk figures in megabytes, with the used share in percent.
pub struct DiskStats {
    pub total: u64,
    pub used: u64,
    pub available: u64,
    pub percent: u64,
}

/// Breaks an uptime in seconds into days, the hours of the last day and
/// the minutes of the last hour.
pub fn uptime_stats(seconds: u64) -> (u: UptimeStats)
    ensures
        u.seconds == seconds,
        u.days == seconds / 86400,
        u.hours == (seconds % 86400) / 3600,
        u.minutes == (seconds % 3600) / 60,
{
    UptimeStats {
        seconds,
        days: seconds / 86400,
        hours: (seconds % 86400) / 3600,
        minutes: (seconds % 3600) / 60,
    }
}

/// Memory figures from byte counts; `percent` is the used share computed by
/// the caller.
pub fn memory_stats(total: u64, used: u64, available: u64, percent: u64) -> (m: MemoryStats)
    ensures
        m.total == total / MEMORY_UNIT,
        m.used == used / MEMORY_UNIT,
        m.available == available / MEMORY_UNIT,
        m.percent == percent,
{
    MemoryStats {
        total: total / MEMORY_UNIT,
        used: used / MEMORY_UNIT,
        available: available / MEMORY_UNIT,
        percent,
    }
}

/// Root-disk figures from its size and free space in bytes; `percent` is
/// the used share computed by the caller. The used space is the size less
/// the free space, wrapping around as unchecked release arithmetic does
/// should the free space exceed the size.
pub fn disk_stats(total: u64, available: u64, percent: u64) -> (d: DiskStats)
    ensures
        d.total == total / DISK_UNIT,
        d.used == (if available <= total {
            (total - available) as int
        } else {
            total - available + 0x1_0000_0000_0000_0000
        }) / DISK_UNIT as int,
        d.available == available / DISK_UNIT,
        d.percent == percent,
{
    let used = total.wrapping_sub(available);
    DiskStats {
        total: total / DISK_UNIT,
        used: used / DISK_UNIT,
        available: available / DISK_UNIT,
        percent,
    }
}

/// The figures reported when no disk is mounted at `/`: all zero.
pub fn no_disk_stats() -> (d: DiskStats)
    ensures
        d.total == 0,
        d.used == 0,
        d.available == 0,
        d.percent == 0,
{
    DiskStats { total: 0, used: 0, available: 0, percent: 0 }
}

/// The uptime breakdown loses nothing but the seconds of the last minute,
/// and its hours and minutes stay below a day and an hour.
pub proof fn law_uptime_breakdown(seconds: u64)
    ensures
        (seconds / 86400) * 86400 + ((seconds % 86400) / 3600) * 3600 + ((seconds % 3600) / 60) * 60
            + seconds % 60 == seconds,
        (seconds % 86400) / 3600 < 24,
        (seconds % 3600) / 60 < 60,
{
    let s = seconds as int;
    assert(s == (s / 86400) * 86400 + s % 86400) by (nonlinear_arith);
    let r = s % 86400;
    assert(r == (r / 3600) * 3600 + r % 3600) by (nonlinear_arith);
    assert(r % 3600 == s % 3600) by (nonlinear_arith)
        requires
            r == s % 86400,
            s >= 0,
    ;
    let q = s % 3600;
    assert(q == (q / 60) * 60 + q % 60) by (nonlinear_arith);
    assert(q % 60 == s % 60) by (nonlinear_arith)
        requires
            q == s % 3600,
            s >= 0,
    ;
    assert(r / 3600 < 24) by (nonlinear_arith)
        requires
            r == s % 86400,
            s >= 0,
    ;
    assert(q / 60 < 60) by (nonlinear_arith)
        requires
            q == s % 3600,
            s >= 0,
    ;
}

} // verus!
