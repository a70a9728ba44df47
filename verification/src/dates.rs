//! Points in time, and the two ways in which zip files store them.
use vstd::prelude::*;

use chrono::TimeZone;
use vstd::slice::slice_subrange;

use crate::bytes::{read_u16, read_u64};
use crate::error::{ErrorKind, ParseError, ZipParseResult};

verus! {

/// A point in time, in UTC.
#[derive(Debug, Clone, Copy, PartialEq, Eq, Structural)]
pub struct Timestamp {
    /// number of whole non-leap seconds since January 1, 1970, 0:00:00
    pub secs: i64,
    /// number of nanoseconds since the last whole second
    pub nanos: u32,
}

impl View for Timestamp {
    type V = Timestamp;

    open spec fn view(&self) -> Timestamp {
        *self
    }
}

/// The first second of the earliest year that the calendar covers.
pub const MIN_SECS: i64 = -8_334_601_228_800;

/// The last second of the latest year that the calendar covers.
pub const MAX_SECS: i64 = 8_210_266_876_799;

/// Number of seconds between January 1, 1601 and January 1, 1970.
pub const NTFS_EPOCH_OFFSET: i64 = 11_644_473_600;

/// Number of NTFS ticks in one second.
pub const TICKS_PER_SECOND: u64 = 10_000_000;

/// The point in time `secs` seconds and `nanos` nanoseconds after the Unix epoch, where the
/// calendar covers it.
pub open spec fn unix_timestamp(secs: int, nanos: u32) -> Option<Timestamp> {
    if MIN_SECS <= secs <= MAX_SECS {
        Some(Timestamp { secs: secs as i64, nanos })
    } else {
        None
    }
}

/// Whether `year` is a leap year of the Gregorian calendar.
pub open spec fn is_leap_year(year: int) -> bool {
    year % 4 == 0 && (year % 100 != 0 || year % 400 == 0)
}

/// Number of days of the month `month`, counted from 1, of the year `year`.
pub open spec fn days_in_month(year: int, month: int) -> int {
    if month == 2 {
        if is_leap_year(year) {
            29
        } else {
            28
        }
    } else if month == 4 || month == 6 || month == 9 || month == 11 {
        30
    } else {
        31
    }
}

/// Number of days of the year `year` that come before the month `month`.
pub open spec fn days_before_month(year: int, month: int) -> int
    decreases month,
{
    if month <= 1 {
        0
    } else {
        days_before_month(year, month - 1) + days_in_month(year, month - 1)
    }
}

/// Number of days from January 1 of the year 1 to January 1 of the year `year`.
pub open spec fn days_before_year(year: int) -> int {
    365 * (year - 1) + (year - 1) / 4 - (year - 1) / 100 + (year - 1) / 400
}

/// The point in time that a date and a time of day of the Gregorian calendar stand for, or
/// `None` where there is no such date or no such time of day.
pub open spec fn civil_timestamp(
    year: int,
    month: int,
    day: int,
    hour: int,
    min: int,
    sec: int,
) -> Option<Timestamp> {
    if 1 <= month <= 12 && 1 <= day <= days_in_month(year, month) && 0 <= hour < 24 && 0 <= min < 60
        && 0 <= sec < 60 {
        let days = days_before_year(year) - days_before_year(1970) + days_before_month(year, month)
            + day - 1;
        Some(
            Timestamp {
                secs: (days * 86_400 + hour * 3_600 + min * 60 + sec) as i64,
                nanos: 0,
            },
        )
    } else {
        None
    }
}

/// Calls `timestamp_opt` of chrono's `Utc`. Trusted: within the years that chrono covers it
/// gives the point in time with exactly the seconds and the nanoseconds that it was given,
/// and outside of them nothing.
#[verifier::external_body]
pub(crate) fn utc_timestamp(secs: i64, nanos: u32) -> (res: Option<Timestamp>)
    requires
        nanos < 1_000_000_000,
    ensures
        res == unix_timestamp(secs as int, nanos),
{
    chrono::Utc.timestamp_opt(secs, nanos).single().map(
        |d| Timestamp { secs: d.timestamp(), nanos: d.timestamp_subsec_nanos() },
    )
}

/// Calls `with_ymd_and_hms` of chrono's `Utc`. Trusted: it accepts the dates of the Gregorian
/// calendar and the times of day that exist, leap seconds left out, and counts the seconds
/// from the Unix epoch to them.
#[verifier::external_body]
pub(crate) fn utc_civil(year: i32, month: u32, day: u32, hour: u32, min: u32, sec: u32) -> (res:
    Option<Timestamp>)
    requires
        1 <= year <= 9999,
    ensures
        res == civil_timestamp(
            year as int,
            month as int,
            day as int,
            hour as int,
            min as int,
            sec as int,
        ),
{
    chrono::Utc.with_ymd_and_hms(year, month, day, hour, min, sec).single().map(
        |d| Timestamp { secs: d.timestamp(), nanos: d.timestamp_subsec_nanos() },
    )
}

/// The Unix epoch, which stands for a point in time that is not known.
pub fn zero_datetime() -> (res: Timestamp)
    ensures
        res == (Timestamp { secs: 0, nanos: 0 }),
{
    Timestamp { secs: 0, nanos: 0 }
}

/// The point in time `secs` seconds after the Unix epoch.
pub fn unix_seconds(secs: u32) -> (res: Timestamp)
    ensures
        res == (Timestamp { secs: secs as i64, nanos: 0 }),
{
    utc_timestamp(secs as i64, 0).unwrap()
}

/// A date and time as MS-DOS stores them, with a resolution of two seconds.
#[derive(Debug, Clone, Copy, PartialEq, Eq, Structural)]
pub struct MsdosTimestamp {
    /// bits 0-4: second divided by 2, bits 5-10: minute, bits 11-15: hour
    pub time: u16,
    /// bits 0-4: day of the month, bits 5-8: month, bits 9-15: year offset from 1980
    pub date: u16,
}

impl View for MsdosTimestamp {
    type V = MsdosTimestamp;

    open spec fn view(&self) -> MsdosTimestamp {
        *self
    }
}

/// The point in time that an MS-DOS date and time stand for.
pub open spec fn msdos_datetime(t: MsdosTimestamp) -> Option<Timestamp> {
    civil_timestamp(
        1980 + t.date as int / 0x200,
        t.date as int / 0x20 % 0x10,
        t.date as int % 0x20,
        t.time as int / 0x800,
        t.time as int / 0x20 % 0x40,
        t.time as int % 0x20 * 2,
    )
}

/// What `MsdosTimestamp::parse` makes of the bytes `s`.
pub open spec fn msdos_timestamp(s: Seq<u8>) -> Result<(Seq<u8>, MsdosTimestamp), ParseError> {
    if s.len() < 4 {
        Err(ParseError::Error(ErrorKind::Eof))
    } else {
        Ok((s.skip(4), MsdosTimestamp { time: crate::bytes::le16(s, 0), date: crate::bytes::le16(s, 2) }))
    }
}

impl MsdosTimestamp {
    pub fn parse<'a>(i: &'a [u8]) -> (res: ZipParseResult<'a, Self>)
        ensures
            crate::error::parse_view(res) == msdos_timestamp(i@),
    {
        if i.len() < 4 {
            return Err(ParseError::Error(ErrorKind::Eof));
        }
        Ok(
            (
                slice_subrange(i, 4, i.len()),
                MsdosTimestamp { time: read_u16(i, 0), date: read_u16(i, 2) },
            ),
        )
    }

    /// The point in time that the date and the time stand for, if they exist.
    pub fn to_datetime(&self) -> (res: Option<Timestamp>)
        ensures
            res == msdos_datetime(*self),
    {
        let day: u32 = (self.date % 0x20) as u32;
        let month: u32 = (self.date / 0x20 % 0x10) as u32;
        let year: i32 = 1980 + (self.date / 0x200) as i32;
        let sec: u32 = (self.time % 0x20) as u32 * 2;
        let min: u32 = (self.time / 0x20 % 0x40) as u32;
        let hour: u32 = (self.time / 0x800) as u32;
        utc_civil(year, month, day, hour, min, sec)
    }
}

/// A date and time as NTFS stores them: the number of ticks of 100 nanoseconds since
/// January 1, 1601.
#[derive(Debug, Clone, Copy, PartialEq, Eq, Structural)]
pub struct NtfsTimestamp {
    pub timestamp: u64,
}

impl View for NtfsTimestamp {
    type V = NtfsTimestamp;

    open spec fn view(&self) -> NtfsTimestamp {
        *self
    }
}

/// The point in time that a number of NTFS ticks stands for.
pub open spec fn ntfs_datetime(t: NtfsTimestamp) -> Option<Timestamp> {
    unix_timestamp(
        t.timestamp as int / TICKS_PER_SECOND as int - NTFS_EPOCH_OFFSET,
        (t.timestamp as int % TICKS_PER_SECOND as int * 100) as u32,
    )
}

/// What `NtfsTimestamp::parse` makes of the bytes `s`.
pub open spec fn ntfs_timestamp(s: Seq<u8>) -> Result<(Seq<u8>, NtfsTimestamp), ParseError> {
    if s.len() < 8 {
        Err(ParseError::Error(ErrorKind::Eof))
    } else {
        Ok((s.skip(8), NtfsTimestamp { timestamp: crate::bytes::le64(s, 0) }))
    }
}

impl NtfsTimestamp {
    pub fn parse<'a>(i: &'a [u8]) -> (res: ZipParseResult<'a, Self>)
        ensures
            crate::error::parse_view(res) == ntfs_timestamp(i@),
    {
        if i.len() < 8 {
            return Err(ParseError::Error(ErrorKind::Eof));
        }
        Ok((slice_subrange(i, 8, i.len()), NtfsTimestamp { timestamp: read_u64(i, 0) }))
    }

    /// The point in time that the ticks stand for. Every number of ticks stands for one.
    pub fn to_datetime(&self) -> (res: Option<Timestamp>)
        ensures
            res == ntfs_datetime(*self),
            res is Some,
    {
        let secs: i64 = (self.timestamp / TICKS_PER_SECOND) as i64 - NTFS_EPOCH_OFFSET;
        let nanos: u32 = (self.timestamp % TICKS_PER_SECOND * 100) as u32;
        utc_timestamp(secs, nanos)
    }
}

} // verus!
