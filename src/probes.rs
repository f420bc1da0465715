//! The computing parts of probes whose reading of the system happens
//! elsewhere: what to do with the values read.

use vstd::prelude::*;
use crate::dimensions::{measure_plain, newline_count};
use crate::errors::FreshfetchError;
use crate::platform::Family;
use crate::records::{PackageManager, Uptime};
use crate::text::{trim, trimmed_of};

verus! {

/// Seconds in a day.
pub const DAY: i64 = 86400;

/// What chrono gives as the 0-based day of the year of a UTC timestamp.
pub uninterp spec fn day_of_year0(secs: int) -> int;

/// Relies on chrono's `Utc.timestamp_opt(secs, 0)` and on `ordinal0`,
/// `hour`, `minute` and `second` of the date it gives: the time of day is the
/// remainder of the seconds in a day, and in 1970 the day of the year is the
/// number of whole days since the epoch.
#[verifier::external_body]
fn utc_fields(secs: i64) -> (r: Option<(u32, u32, u32, u32)>)
    ensures
        0 <= secs <= 1099511627776 ==> r is Some,
        r matches Some(f) ==> f.0 == day_of_year0(secs as int) && f.1 == (secs as int % 86400)
            / 3600 && f.2 == (secs as int % 3600) / 60 && f.3 == secs as int % 60,
        r is Some && 0 <= secs < 365 * 86400 ==> day_of_year0(secs as int) == secs / 86400,
{
    chrono::TimeZone::timestamp_opt(&chrono::Utc, secs, 0).single().map(
        |d| {
            (
                chrono::Datelike::ordinal0(&d),
                chrono::Timelike::hour(&d),
                chrono::Timelike::minute(&d),
                chrono::Timelike::second(&d),
            )
        },
    )
}

/// Seconds since boot as the kernel's family lets us know them: the system's
/// own count where `/proc/uptime` exists, else the time since boot; zero on
/// families without either.
pub open spec fn uptime_seconds_of(
    family: Family,
    proc_uptime_exists: bool,
    system_uptime: u64,
    boot_time: u64,
    now: i64,
) -> int {
    match family {
        Family::Linux | Family::Windows | Family::Minix => if proc_uptime_exists {
            if system_uptime > i64::MAX {
                i64::MAX as int
            } else {
                system_uptime as int
            }
        } else if now as int - boot_time as int > 0 {
            now as int - boot_time as int
        } else {
            0
        },
        _ => 0,
    }
}

/// Chooses the uptime in seconds from what the system reported.
pub fn uptime_seconds(
    family: Family,
    proc_uptime_exists: bool,
    system_uptime: u64,
    boot_time: u64,
    now: i64,
) -> (r: i64)
    ensures
        r == uptime_seconds_of(family, proc_uptime_exists, system_uptime, boot_time, now),
{
    match family {
        Family::Linux | Family::Windows | Family::Minix => {
            if proc_uptime_exists {
                if system_uptime > 9223372036854775807u64 {
                    9223372036854775807i64
                } else {
                    system_uptime as i64
                }
            } else if boot_time > 9223372036854775807u64 || now <= boot_time as i64 {
                0
            } else {
                now - boot_time as i64
            }
        },
        _ => 0,
    }
}

impl Uptime {
    /// The uptime of `secs` seconds as a day of the year and a time of day,
    /// the way a timestamp that many seconds after the epoch reads; fails
    /// when the timestamp is out of range.
    pub fn from_seconds(secs: i64) -> (r: Result<Uptime, FreshfetchError>)
        ensures
            0 <= secs <= 1099511627776 ==> r is Ok,
            r matches Ok(u) ==> u.days == day_of_year0(secs as int) && u.hours == (secs as int
                % 86400) / 3600 && u.minutes == (secs as int % 3600) / 60 && u.seconds == secs as int
                % 60,
            r is Ok && 0 <= secs < 365 * 86400 ==> r->Ok_0.days == secs / 86400,
            r is Err ==> r->Err_0 is General,
    {
        match utc_fields(secs) {
            Some((days, hours, minutes, seconds)) => Ok(Uptime { days, hours, minutes, seconds }),
            None => Err(FreshfetchError::General(String::from_str("Failed to create timestamp for uptime"))),
        }
    }

    /// The uptime of the running system, from what it reported.
    pub fn new(
        family: Family,
        proc_uptime_exists: bool,
        system_uptime: u64,
        boot_time: u64,
        now: i64,
    ) -> (r: Result<Uptime, FreshfetchError>)
        ensures
            ({
                let secs = uptime_seconds_of(family, proc_uptime_exists, system_uptime, boot_time, now);
                &&& secs <= 1099511627776 ==> r is Ok
                &&& r matches Ok(u) ==> u.hours == (secs % 86400) / 3600 && u.minutes == (secs % 3600)
                    / 60 && u.seconds == secs % 60 && u.days == day_of_year0(secs)
                &&& r is Ok && secs < 365 * 86400 ==> r->Ok_0.days == secs / 86400
            }),
    {
        let secs = uptime_seconds(family, proc_uptime_exists, system_uptime, boot_time, now);
        Uptime::from_seconds(secs)
    }
}

/// The number of packages that a listing command printed: its lines once
/// the output is trimmed, or none when nothing is left.
pub open spec fn package_count_of(output: Seq<char>) -> int {
    let t = trimmed_of(output);
    if t.len() == 0 {
        0
    } else {
        newline_count(t) + 1int
    }
}

/// Counts the packages in a listing command's output.
pub fn count_packages(output: &str) -> (r: i32)
    requires
        output@.len() < i32::MAX,
    ensures
        r == package_count_of(output@),
{
    let t = trim(output);
    if t.unicode_len() == 0 {
        0
    } else {
        let (_, lines) = measure_plain(t);
        lines
    }
}

impl PackageManager {
    /// The package manager `name`, counted from its listing command's output.
    pub fn from_listing(name: &str, output: &str) -> (r: PackageManager)
        requires
            output@.len() < i32::MAX,
        ensures
            r.name@ == name@,
            r.packages == package_count_of(output@),
    {
        PackageManager::new(name, count_packages(output))
    }
}

} // verus!
