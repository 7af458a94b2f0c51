use vstd::prelude::*;

use crate::strutil::is_digit_char;

verus! {

/// Timestamps are held as seconds since the Unix epoch. The datetime backend
/// (chrono's `NaiveDateTime`) represents dates from about 262,145 BCE to
/// 262,143 CE, so every timestamp it hands out lies well within this band.
pub open spec fn ts_in_range(t: int) -> bool {
    -9_000_000_000_000 <= t <= 9_000_000_000_000
}

/// The timestamp that `chrono::NaiveDateTime::parse_from_str` reads from a
/// string under the `%Y-%m-%d %H:%M:%S` format, as seconds since the epoch;
/// `None` where parsing fails.
pub uninterp spec fn parse_datetime_spec(s: Seq<char>) -> Option<int>;

/// The `YYYY-MM-DD HH:MM:SS` rendering of a timestamp, `None` where the
/// timestamp lies outside the datetime backend's representable range.
pub uninterp spec fn format_datetime_spec(t: int) -> Option<Seq<char>>;

/// Relies on `chrono::NaiveDateTime::parse_from_str` with the
/// `%Y-%m-%d %H:%M:%S` format, and on `NaiveDateTime::and_utc` /
/// `DateTime::timestamp` to read the parsed moment as epoch seconds.
/// The range bound follows from the documented limits of `NaiveDateTime`
/// (about 262,000 years either side of the common era).
#[verifier::external_body]
pub fn parse_datetime(s: &str) -> (r: Option<i64>)
    ensures
        (r is Some) == (parse_datetime_spec(s@) is Some),
        r is Some ==> Some(r->0 as int) == parse_datetime_spec(s@) && ts_in_range(r->0 as int),
{
    match chrono::NaiveDateTime::parse_from_str(s, "%Y-%m-%d %H:%M:%S") {
        Ok(dt) => Some(dt.and_utc().timestamp()),
        Err(_) => None,
    }
}

/// Relies on `chrono::DateTime::from_timestamp`, which is documented to
/// return `None` exactly when the seconds lie outside the representable
/// range, and on `NaiveDateTime::format` with `%Y-%m-%d %H:%M:%S`.
#[verifier::external_body]
pub fn format_datetime(t: i64) -> (r: Option<String>)
    ensures
        (r is Some) == (format_datetime_spec(t as int) is Some),
        r is Some ==> Some(r->0@) == format_datetime_spec(t as int),
{
    match chrono::DateTime::from_timestamp(t, 0) {
        Some(dt) => Some(dt.naive_utc().format("%Y-%m-%d %H:%M:%S").to_string()),
        None => None,
    }
}

/// The shape a timestamp string must have at the boundary: exactly
/// `YYYY-MM-DD HH:MM:SS`, four digits, then groups of two, with fixed
/// punctuation. (Whether the digits name a real calendar moment is a
/// separate question, answered by parsing.)
pub open spec fn datetime_format_spec(s: Seq<char>) -> bool {
    &&& s.len() == 19
    &&& (forall|i: int|
        0 <= i < 19 && i != 4 && i != 7 && i != 10 && i != 13 && i != 16 ==> is_digit_char(
            #[trigger] s[i],
        ))
    &&& s[4] == '-'
    &&& s[7] == '-'
    &&& s[10] == ' '
    &&& s[13] == ':'
    &&& s[16] == ':'
}

/// Whether a string has the exact `YYYY-MM-DD HH:MM:SS` shape.
pub fn is_valid_datetime_format(v: &Vec<char>) -> (r: bool)
    ensures
        r == datetime_format_spec(v@),
{
    if v.len() != 19 {
        return false;
    }
    let mut i: usize = 0;
    while i < 19
        invariant
            v@.len() == 19,
            i <= 19,
            forall|j: int|
                0 <= j < i && j != 4 && j != 7 && j != 10 && j != 13 && j != 16 ==> is_digit_char(
                    #[trigger] v@[j],
                ),
            forall|j: int| 0 <= j < i && (j == 4 || j == 7) ==> v@[j] == '-',
            forall|j: int| 0 <= j < i && j == 10 ==> v@[j] == ' ',
            forall|j: int| 0 <= j < i && (j == 13 || j == 16) ==> v@[j] == ':',
        decreases 19 - i,
    {
        let c = v[i];
        let ok = if i == 4 || i == 7 {
            c == '-'
        } else if i == 10 {
            c == ' '
        } else if i == 13 || i == 16 {
            c == ':'
        } else {
            '0' <= c && c <= '9'
        };
        if !ok {
            return false;
        }
        i = i + 1;
    }
    true
}

} // verus!
