//! Wall-clock readings: milliseconds since the Unix epoch.
use std::time::{SystemTime, UNIX_EPOCH};
use vstd::prelude::*;
use crate::numeric::{decimal_digits, format_u128};
use crate::text::string_from_chars;

verus! {

/// Wraps `SystemTime::now` (with `duration_since(UNIX_EPOCH)` and
/// `as_millis` to convert): milliseconds since the epoch, `None` when the
/// clock reads before it. Nothing is claimed of the reading.
#[verifier::external_body]
pub(crate) fn epoch_millis() -> (r: Option<u128>) {
    SystemTime::now().duration_since(UNIX_EPOCH).ok().map(|d| d.as_millis())
}

/// The UTC calendar date, printed `%Y-%m-%d` by chrono, of the instant `ms`
/// milliseconds after the Unix epoch; `None` where chrono cannot represent
/// that instant.
pub uninterp spec fn utc_date_of(ms: i64) -> Option<Seq<char>>;

/// The proleptic Gregorian date `(year, month, day)` of the day `days`
/// days after 1970-01-01, for `days >= 0` (the civil-from-days count over
/// 400-year eras of 146097 days, with years starting in March).
pub open spec fn civil_of_days(days: int) -> (int, int, int) {
    let z = days + 719468;
    let era = z / 146097;
    let doe = z - era * 146097;
    let yoe = (doe - doe / 1460 + doe / 36524 - doe / 146096) / 365;
    let doy = doe - (365 * yoe + yoe / 4 - yoe / 100);
    let mp = (5 * doy + 2) / 153;
    let d = doy - (153 * mp + 2) / 5 + 1;
    let m = if mp < 10 {
        mp + 3
    } else {
        mp - 9
    };
    let y = yoe + era * 400 + if m <= 2 {
        1int
    } else {
        0int
    };
    (y, m, d)
}

/// The last `width` decimal digits of `n >= 0`, zero-padded.
pub open spec fn padded_digits(n: int, width: nat) -> Seq<char>
    decreases width,
{
    if width == 0 {
        Seq::empty()
    } else {
        padded_digits(n / 10, (width - 1) as nat).push(((n % 10) + 48) as char)
    }
}

/// `YYYY-MM-DD` of the UTC day holding the instant `ms >= 0` milliseconds
/// after the epoch.
pub open spec fn iso_date_of_millis(ms: int) -> Seq<char> {
    let (y, m, d) = civil_of_days(ms / 86_400_000);
    padded_digits(y, 4) + seq!['-'] + padded_digits(m, 2) + seq!['-'] + padded_digits(d, 2)
}

/// Instants from the epoch to the end of year 9999: those whose date chrono
/// prints as four-digit `%Y-%m-%d`.
pub open spec fn four_digit_year_millis(ms: int) -> bool {
    0 <= ms <= 253_402_300_799_999
}

/// Wraps `chrono::DateTime::<Utc>::from_timestamp_millis`, then
/// `format("%Y-%m-%d")` and `to_string`: the UTC date of the instant `ms`
/// milliseconds after the epoch, `None` where chrono refuses the instant
/// (out of its range). From the epoch to the end of year 9999 the date is
/// `iso_date_of_millis`; for other instants it is left to the name
/// `utc_date_of`.
#[verifier::external_body]
fn utc_date_at(ms: i64) -> (r: Option<String>)
    ensures
        match r {
            Some(s) => utc_date_of(ms) == Some(s@),
            None => utc_date_of(ms) is None,
        },
        four_digit_year_millis(ms as int) ==> r is Some && r->0@ == iso_date_of_millis(ms as int),
{
    match chrono::DateTime::<chrono::Utc>::from_timestamp_millis(ms) {
        Some(d) => Some(d.format("%Y-%m-%d").to_string()),
        None => None,
    }
}

/// The date of a clock reading: the reading must fit in `i64`
/// milliseconds, and chrono must represent the instant.
pub open spec fn reading_date(m: Option<u128>) -> Option<Seq<char>> {
    match m {
        Some(v) => if v <= i64::MAX {
            utc_date_of(v as i64)
        } else {
            None
        },
        None => None,
    }
}

/// The UTC date (`%Y-%m-%d`) of a clock reading in milliseconds since the
/// epoch; `None` when there is no reading, when it does not fit in `i64`,
/// or when chrono cannot represent the instant.
pub fn utc_date_of_reading(m: Option<u128>) -> (r: Option<String>)
    ensures
        match r {
            Some(s) => reading_date(m) == Some(s@),
            None => reading_date(m) is None,
        },
        m matches Some(v) ==> (v <= 253_402_300_799_999 ==> r is Some && r->0@
            == iso_date_of_millis(v as int)),
{
    match m {
        Some(v) => {
            if v <= 0x7fff_ffff_ffff_ffffu128 {
                utc_date_at(v as i64)
            } else {
                None
            }
        },
        None => None,
    }
}

/// A clock reading as the signed milliseconds the services store: the
/// reading cast to `i64` (wrapping, as `as` does), 0 when the clock is
/// before the epoch.
pub fn millis_to_i64(m: Option<u128>) -> (r: i64)
    ensures
        r == (match m {
            Some(v) => v as i64,
            None => 0i64,
        }),
{
    match m {
        Some(v) => v as i64,
        None => 0,
    }
}

/// A clock reading as decimal text, `0` when the clock is before the epoch.
pub fn millis_text(m: Option<u128>) -> (r: String)
    ensures
        r@ == decimal_digits(
            match m {
                Some(v) => v as nat,
                None => 0nat,
            },
        ),
{
    let v: u128 = match m {
        Some(v) => v,
        None => 0,
    };
    let d = format_u128(v);
    string_from_chars(&d)
}

/// Milliseconds since the Unix epoch as `i64`.
pub fn unix_time_ms() -> (r: i64)
    ensures
        exists|m: Option<u128>| r == millis_to_i64_spec(m),
{
    let m = epoch_millis();
    let r = millis_to_i64(m);
    assert(r == millis_to_i64_spec(m));
    r
}

pub open spec fn millis_to_i64_spec(m: Option<u128>) -> i64 {
    match m {
        Some(v) => v as i64,
        None => 0i64,
    }
}

/// Milliseconds since the Unix epoch as decimal text (the Bybit request
/// timestamp).
pub fn now_ms() -> (r: String)
    ensures
        exists|n: nat| r@ == decimal_digits(n),
{
    let m = epoch_millis();
    let r = millis_text(m);
    let ghost n: nat = match m {
        Some(v) => v as nat,
        None => 0nat,
    };
    assert(r@ == decimal_digits(n));
    r
}

} // verus!
