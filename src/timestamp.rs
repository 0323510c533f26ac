use vstd::prelude::*;

use chrono::TimeZone;
use vstd::string::StringSliceAdditionalSpecFns;

use crate::calendar::{civil_seconds, lemma_shift_minutes, shift_minutes, valid_civil};
use crate::decimal::{
    digits_value, field_value, is_digit, lemma_digits_bound, parse_digits, parse_signed, pow10,
    signed_value,
};
use crate::error::SysProbeError;

verus! {

/// Calendar fields of a time of day as the instrumentation service writes them.
#[derive(Debug, Clone, Copy, PartialEq, Eq)]
pub struct CivilTime {
    pub year: i32,
    pub month: u32,
    pub day: u32,
    pub hour: u32,
    pub minute: u32,
    pub second: u32,
}

/// The fields of a timestamp `YYYYMMDDHHMMSS.FFFFFF±UUU`.
#[derive(Debug, Clone, Copy, PartialEq, Eq)]
pub struct DmtfTime {
    pub civil: CivilTime,
    /// Microseconds; read, never used for the epoch value.
    pub fraction: u32,
    /// Offset of the local clock from UTC, in minutes, positive east.
    pub offset_minutes: i32,
}

impl CivilTime {
    pub open spec fn is_valid(self) -> bool {
        valid_civil(
            self.year as int,
            self.month as int,
            self.day as int,
            self.hour as int,
            self.minute as int,
            self.second as int,
        )
    }

    pub open spec fn fields(self) -> (int, int, int, int, int, int) {
        (
            self.year as int,
            self.month as int,
            self.day as int,
            self.hour as int,
            self.minute as int,
            self.second as int,
        )
    }

    /// Seconds since 1970-01-01T00:00:00, reading the fields as UTC.
    pub open spec fn seconds(self) -> int {
        civil_seconds(
            self.year as int,
            self.month as int,
            self.day as int,
            self.hour as int,
            self.minute as int,
            self.second as int,
        )
    }
}

/// The fields of a timestamp: the calendar fields at `[0,4) [4,6) [6,8) [8,10) [10,12)
/// [12,14)`, the fraction at `[15,21)`, all digits, and a signed offset in minutes at
/// `[21, end)`. The byte at 14 is a separator and is not read.
pub open spec fn parse_fields(b: Seq<u8>) -> Option<DmtfTime> {
    if b.len() < 22 {
        None
    } else {
        let year = field_value(b.subrange(0, 4));
        let month = field_value(b.subrange(4, 6));
        let day = field_value(b.subrange(6, 8));
        let hour = field_value(b.subrange(8, 10));
        let minute = field_value(b.subrange(10, 12));
        let second = field_value(b.subrange(12, 14));
        let fraction = field_value(b.subrange(15, 21));
        let offset = signed_value(b.subrange(21, b.len() as int));
        if year is Some && month is Some && day is Some && hour is Some && minute is Some
            && second is Some && fraction is Some && offset is Some {
            Some(
                DmtfTime {
                    civil: CivilTime {
                        year: year->0 as i32,
                        month: month->0 as u32,
                        day: day->0 as u32,
                        hour: hour->0 as u32,
                        minute: minute->0 as u32,
                        second: second->0 as u32,
                    },
                    fraction: fraction->0 as u32,
                    offset_minutes: offset->0 as i32,
                },
            )
        } else {
            None
        }
    }
}

/// Epoch seconds of decoded fields: the calendar fields read on a clock that is
/// `offset_minutes` east of UTC. Defined when the offset lies strictly within one
/// day and the date and time exist.
pub open spec fn fields_epoch(t: DmtfTime) -> Option<int> {
    if -1440 < t.offset_minutes < 1440 && t.civil.is_valid() {
        Some(t.civil.seconds() - 60 * t.offset_minutes)
    } else {
        None
    }
}

/// Epoch seconds that the timestamp text `b` stands for, or `None` when it does not decode.
pub open spec fn decode_timestamp(b: Seq<u8>) -> Option<int> {
    match parse_fields(b) {
        Some(t) => fields_epoch(t),
        None => None,
    }
}

/// Reads the fields of a timestamp from its bytes.
pub fn parse_timestamp(b: &[u8]) -> (r: Option<DmtfTime>)
    ensures
        r == parse_fields(b@),
{
    if b.len() < 22 {
        return None;
    }
    let year = parse_digits(b, 0, 4);
    let month = parse_digits(b, 4, 6);
    let day = parse_digits(b, 6, 8);
    let hour = parse_digits(b, 8, 10);
    let minute = parse_digits(b, 10, 12);
    let second = parse_digits(b, 12, 14);
    let fraction = parse_digits(b, 15, 21);
    let offset = parse_signed(b, 21);
    match (year, month, day, hour, minute, second, fraction, offset) {
        (Some(y), Some(mo), Some(d), Some(h), Some(mi), Some(s), Some(f), Some(off)) => {
            proof {
                lemma_digits_bound(b@.subrange(0, 4));
                reveal_with_fuel(pow10, 5);
            }
            Some(
                DmtfTime {
                    civil: CivilTime {
                        year: y as i32,
                        month: mo,
                        day: d,
                        hour: h,
                        minute: mi,
                        second: s,
                    },
                    fraction: f,
                    offset_minutes: off,
                },
            )
        },
        _ => None,
    }
}

/// Relies on chrono's `FixedOffset::east_opt` (accepts an offset strictly within one
/// day), `TimeZone::with_ymd_and_hms` (a single result exactly when the proleptic
/// Gregorian date and the time of day exist, leap seconds excluded) and
/// `DateTime::timestamp` (non-leap seconds since 1970-01-01T00:00:00 UTC).
#[verifier::external_body]
fn epoch_seconds_at_offset(offset_secs: i32, c: &CivilTime) -> (r: Option<i64>)
    requires
        -9999 <= c.year <= 9999,
    ensures
        r is Some <==> (-86400 < offset_secs < 86400 && c.is_valid()),
        r is Some ==> r->0 == c.seconds() - offset_secs,
{
    match chrono::FixedOffset::east_opt(offset_secs) {
        Some(zone) => match zone.with_ymd_and_hms(
            c.year,
            c.month,
            c.day,
            c.hour,
            c.minute,
            c.second,
        ).single() {
            Some(t) => Some(t.timestamp()),
            None => None,
        },
        None => None,
    }
}

/// Decodes a timestamp `YYYYMMDDHHMMSS.FFFFFF±UUU` into seconds since the Unix epoch.
/// The fraction is read but does not change the result.
pub fn timestamp_to_unix_time(timestamp: &str) -> (r: Result<i64, SysProbeError>)
    ensures
        r is Ok <==> decode_timestamp(timestamp.spec_bytes()) is Some,
        r is Ok ==> r->Ok_0 == decode_timestamp(timestamp.spec_bytes())->0,
        r is Err ==> r->Err_0 == SysProbeError::DateTimeParsingError,
{
    let b = timestamp.as_bytes();
    match parse_timestamp(b) {
        Some(t) => match t.offset_minutes.checked_mul(60) {
            Some(offset_secs) => {
                proof {
                    lemma_year_range(b@);
                }
                match epoch_seconds_at_offset(offset_secs, &t.civil) {
                    Some(e) => Ok(e),
                    None => Err(SysProbeError::DateTimeParsingError),
                }
            },
            None => Err(SysProbeError::DateTimeParsingError),
        },
        None => Err(SysProbeError::DateTimeParsingError),
    }
}

proof fn lemma_year_range(b: Seq<u8>)
    requires
        parse_fields(b) is Some,
    ensures
        0 <= parse_fields(b)->0.civil.year <= 9999,
{
    lemma_digits_bound(b.subrange(0, 4));
    reveal_with_fuel(pow10, 5);
}

/// A timestamp whose offset is `+000` decodes to its calendar fields read as UTC.
pub proof fn lemma_utc_offset_reads_fields_as_utc(b: Seq<u8>)
    requires
        b.len() == 25,
        b.subrange(21, 25) == seq![0x2bu8, 0x30u8, 0x30u8, 0x30u8],
        parse_fields(b) is Some,
        parse_fields(b)->0.civil.is_valid(),
    ensures
        parse_fields(b)->0.offset_minutes == 0,
        decode_timestamp(b) == Some(parse_fields(b)->0.civil.seconds()),
{
    let o = b.subrange(21, 25);
    assert(o.drop_first() =~= seq![0x30u8, 0x30u8, 0x30u8]);
    reveal_with_fuel(digits_value, 4);
    assert(seq![0x30u8, 0x30u8, 0x30u8].drop_last() =~= seq![0x30u8, 0x30u8]);
    assert(seq![0x30u8, 0x30u8].drop_last() =~= seq![0x30u8]);
    assert(seq![0x30u8].drop_last() =~= Seq::<u8>::empty());
}

/// Decoding a timestamp written with an offset gives the same instant as decoding
/// the same moment written in UTC: the calendar fields moved back by the offset,
/// and offset zero.
pub proof fn lemma_offset_form_matches_utc_form(b1: Seq<u8>, b2: Seq<u8>)
    requires
        parse_fields(b1) is Some,
        parse_fields(b2) is Some,
        parse_fields(b1)->0.civil.is_valid(),
        -1440 < parse_fields(b1)->0.offset_minutes < 1440,
        parse_fields(b2)->0.offset_minutes == 0,
        parse_fields(b2)->0.civil.fields() == ({
            let c = parse_fields(b1)->0.civil;
            shift_minutes(
                c.year as int,
                c.month as int,
                c.day as int,
                c.hour as int,
                c.minute as int,
                c.second as int,
                -parse_fields(b1)->0.offset_minutes,
            )
        }),
    ensures
        decode_timestamp(b1) is Some,
        decode_timestamp(b1) == decode_timestamp(b2),
{
    let t = parse_fields(b1)->0;
    let c = t.civil;
    lemma_shift_minutes(
        c.year as int,
        c.month as int,
        c.day as int,
        c.hour as int,
        c.minute as int,
        c.second as int,
        -t.offset_minutes,
    );
}

/// A timestamp shorter than 22 bytes, or with a byte other than a decimal digit
/// at position `i` of one of its fixed fields, does not decode.
pub proof fn lemma_malformed_does_not_decode(b: Seq<u8>, i: int)
    requires
        b.len() < 22 || (0 <= i < 21 && i != 14 && !is_digit(b[i])),
    ensures
        parse_fields(b) is None,
        decode_timestamp(b) is None,
{
    if b.len() >= 22 {
        let (lo, hi) = if i < 4 {
            (0int, 4int)
        } else if i < 6 {
            (4, 6)
        } else if i < 8 {
            (6, 8)
        } else if i < 10 {
            (8, 10)
        } else if i < 12 {
            (10, 12)
        } else if i < 14 {
            (12, 14)
        } else {
            (15, 21)
        };
        assert(b.subrange(lo, hi)[i - lo] == b[i]);
    }
}

} // verus!
