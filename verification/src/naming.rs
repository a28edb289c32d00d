//! Names of screenshot files and paths of screenshots that the desktop
//! portal hands over.
use vstd::prelude::*;
use vstd::string::{StrSliceExecFns, StringSliceAdditionalSpecFns};
use crate::stamp::{
    two_digits, LocalDateTime, is_stamp_of, lemma_stamp_length, lemma_stamps_sort_by_time, lemma_text_le_common_prefix, lemma_text_le_common_suffix, text_le,
};

verus! {

/// Beginning of every screenshot file name.
pub const FILENAME_PREFIX: &'static str = "snip-shot-";

/// End of every screenshot file name.
pub const FILENAME_SUFFIX: &'static str = ".png";

/// How the moment of capture is written in a file name
/// (year-month-day_hour-minute-second, local time).
pub const TIMESTAMP_FORMAT: &'static str = "%Y-%m-%d_%H-%M-%S";

/// Earliest Unix time (seconds) that `chrono` can represent:
/// January 1 of the year -262143, 00:00:00 UTC.
pub const EARLIEST_UNIX_SECS: i64 = -8334601228800;

/// Latest Unix time (seconds) that `chrono` can represent:
/// December 31 of the year 262142, 23:59:59 UTC.
pub const LATEST_UNIX_SECS: i64 = 8210266876799;

/// A moment that a file name is made for: one that `chrono` can represent,
/// seen at a UTC offset of less than a day (as every time zone has).
pub open spec fn moment_supported(unix_secs: int, utc_offset_secs: int) -> bool {
    &&& -86400 < utc_offset_secs < 86400
    &&& EARLIEST_UNIX_SECS <= unix_secs <= LATEST_UNIX_SECS
}

/// The local moment falls in a year from 0 to 9999 (from 0000-01-01 00:00:00
/// up to 9999-12-31 23:59:59 local time), where each field of
/// [`TIMESTAMP_FORMAT`] has a fixed width.
pub open spec fn local_year_has_four_digits(unix_secs: int, utc_offset_secs: int) -> bool {
    0 <= local_seconds_since_year_zero(unix_secs, utc_offset_secs) < 315569520000
}

/// Seconds from 0000-01-01 00:00:00 local time to the local moment of Unix
/// time `unix_secs` at the UTC offset `utc_offset_secs` (the Unix epoch is
/// 62167219200 seconds after the start of the year 0).
pub open spec fn local_seconds_since_year_zero(unix_secs: int, utc_offset_secs: int) -> int {
    unix_secs + utc_offset_secs + 62167219200
}

/// `name` is the file name of the local moment `seconds_since_year_zero`
/// seconds after 0000-01-01 00:00:00.
pub open spec fn is_name_of_moment(name: Seq<char>, seconds_since_year_zero: int) -> bool {
    exists|stamp: Seq<char>|
        is_stamp_of(stamp, seconds_since_year_zero) && name == FILENAME_PREFIX@ + stamp + FILENAME_SUFFIX@
}

pub open spec fn is_ascii_digit(c: char) -> bool {
    '0' <= c && c <= '9'
}

/// The character that position `i` of a stamp holds: `-` between the date
/// fields and between the time fields, `_` between date and time, a digit
/// elsewhere.
pub open spec fn timestamp_char_ok(i: int, c: char) -> bool {
    if i == 4 || i == 7 || i == 13 || i == 16 {
        c == '-'
    } else if i == 10 {
        c == '_'
    } else {
        is_ascii_digit(c)
    }
}

/// The shape of a stamp written with [`TIMESTAMP_FORMAT`] for a year from 0
/// to 9999: `YYYY-MM-DD_HH-MM-SS`.
pub open spec fn is_timestamp(s: Seq<char>) -> bool {
    &&& s.len() == 19
    &&& forall|i: int| 0 <= i < 19 ==> #[trigger] timestamp_char_ok(i, s[i])
}

/// The text of a moment of the years 0 to 9999 has the shape of a stamp.
pub proof fn lemma_stamp_shape(stamp: Seq<char>, seconds_since_year_zero: int)
    requires
        is_stamp_of(stamp, seconds_since_year_zero),
    ensures
        is_timestamp(stamp),
{
    let t = choose|t: LocalDateTime|
        #![trigger t.stamp()]
        t.is_valid() && t.seconds_since_year_zero() == seconds_since_year_zero && stamp == t.stamp();
    lemma_moment_stamp_shape(t);
}

proof fn lemma_two_digits_shape(n: int)
    ensures
        two_digits(n).len() == 2,
        is_ascii_digit(two_digits(n)[0]),
        is_ascii_digit(two_digits(n)[1]),
{
}

#[verifier::rlimit(50)]
proof fn lemma_moment_stamp_shape(t: LocalDateTime)
    ensures
        is_timestamp(t.stamp()),
{
    let d = seq!['-'];
    let a = two_digits(t.year / 100);
    let b = two_digits(t.year % 100);
    let m = two_digits(t.month);
    let dd = two_digits(t.day);
    let h = two_digits(t.hour);
    let mi = two_digits(t.minute);
    let se = two_digits(t.second);
    lemma_two_digits_shape(t.year / 100);
    lemma_two_digits_shape(t.year % 100);
    lemma_two_digits_shape(t.month);
    lemma_two_digits_shape(t.day);
    lemma_two_digits_shape(t.hour);
    lemma_two_digits_shape(t.minute);
    lemma_two_digits_shape(t.second);
    let st = t.stamp();
    assert(st =~= seq![
        a[0], a[1], b[0], b[1], '-', m[0], m[1], '-', dd[0], dd[1], '_', h[0], h[1], '-', mi[0], mi[1], '-', se[0],
        se[1]
    ]);
    assert forall|i: int| 0 <= i < 19 implies #[trigger] timestamp_char_ok(i, st[i]) by {}
}

/// What `chrono` writes for the Unix time `unix_secs` seen at the UTC offset
/// `utc_offset_secs` with the pattern [`TIMESTAMP_FORMAT`]: the moment built
/// by `DateTime::from_timestamp`, moved to `FixedOffset::east_opt`, formatted
/// by `DateTime::format`.
pub uninterp spec fn chrono_local_stamp(unix_secs: int, utc_offset_secs: int) -> Seq<char>;

/// The path that `url` gives for a file URL, as the bytes of the path:
/// `Url::parse` on `uri`, then `Url::to_file_path`; `None` where either
/// fails.
pub uninterp spec fn url_file_path(uri: Seq<char>) -> Option<Seq<u8>>;

/// Calls `chrono::DateTime::from_timestamp(unix_secs, 0)`,
/// `chrono::FixedOffset::east_opt(utc_offset_secs)`, `DateTime::with_timezone`,
/// `DateTime::format(pattern)` and `to_string`.
///
/// Claims: for a supported moment both constructors succeed (`east_opt`
/// fails only for offsets of a day or more; `from_timestamp` only outside
/// the days from `NaiveDate::MIN` to `NaiveDate::MAX`, which are the bounds
/// [`EARLIEST_UNIX_SECS`] and [`LATEST_UNIX_SECS`]), so a stamp comes back;
/// it is the named [`chrono_local_stamp`] of the two numbers; and where the
/// local year is 0 to 9999 it is the text of the local moment in the
/// proleptic Gregorian calendar that chrono's documentation names
/// ([`is_stamp_of`]: the date and time of day whose count of seconds from
/// 0000-01-01 00:00:00 is the Unix time plus the offset plus the seconds
/// from the year 0 to 1970), written as chrono's table of specifiers gives
/// for `%Y` (four digits, zero-padded, a sign only outside those years) and
/// for `%m`, `%d`, `%H`, `%M`, `%S` (two digits, zero-padded; with no
/// nanoseconds there is no leap second). Nothing here reads the clock or the time zone of the
/// machine, and no call in it panics (moving to the offset near chrono's
/// bounds goes through `overflowing_add_offset`).
#[verifier::external_body]
fn format_local_stamp(unix_secs: i64, utc_offset_secs: i32, pattern: &str) -> (stamp: Option<String>)
    requires
        pattern@ == TIMESTAMP_FORMAT@,
        moment_supported(unix_secs as int, utc_offset_secs as int),
    ensures
        stamp is Some,
        stamp matches Some(s) ==> s@ == chrono_local_stamp(unix_secs as int, utc_offset_secs as int),
        stamp matches Some(s) ==> (local_year_has_four_digits(unix_secs as int, utc_offset_secs as int)
            ==> is_stamp_of(s@, local_seconds_since_year_zero(unix_secs as int, utc_offset_secs as int))),
{
    match (chrono::DateTime::from_timestamp(unix_secs, 0), chrono::FixedOffset::east_opt(utc_offset_secs)) {
        (Some(utc), Some(offset)) => Some(utc.with_timezone(&offset).format(pattern).to_string()),
        _ => None,
    }
}

/// Calls `url::Url::parse` on `uri` and `Url::to_file_path` on the result,
/// and hands back the path's bytes (`OsString::into_encoded_bytes`, which on
/// Unix are the path's own bytes, whether UTF-8 or not). Claims that the
/// result is the named [`url_file_path`] of `uri`; this leaves aside the case
/// where `to_file_path` cannot reserve memory for the path (it then fails).
#[verifier::external_body]
fn file_url_to_path(uri: &str) -> (path: Option<Vec<u8>>)
    ensures
        match path {
            Some(p) => url_file_path(uri@) == Some(p@),
            None => url_file_path(uri@) is None,
        },
{
    match url::Url::parse(uri) {
        Ok(url) => match url.to_file_path() {
            Ok(p) => Some(p.into_os_string().into_encoded_bytes()),
            Err(_) => None,
        },
        Err(_) => None,
    }
}

/// The file name for a screenshot taken at the moment written as `stamp`.
pub fn screenshot_filename_for(stamp: &str) -> (name: String)
    ensures
        name@ == FILENAME_PREFIX@ + stamp@ + FILENAME_SUFFIX@,
{
    let mut name = String::from_str(FILENAME_PREFIX);
    name.append(stamp);
    name.append(FILENAME_SUFFIX);
    name
}

/// The file name for a screenshot taken at Unix time `unix_secs` in a time
/// zone `utc_offset_secs` seconds ahead of UTC:
/// `snip-shot-YYYY-MM-DD_HH-MM-SS.png` in local time (with a signed, longer
/// year outside the years 0 to 9999). `None` exactly for a moment that is not
/// [`moment_supported`], which no reading of the clock gives.
pub fn screenshot_filename(unix_secs: i64, utc_offset_secs: i32) -> (name: Option<String>)
    ensures
        name is Some <==> moment_supported(unix_secs as int, utc_offset_secs as int),
        name matches Some(n) ==> n@ == FILENAME_PREFIX@ + chrono_local_stamp(unix_secs as int, utc_offset_secs as int)
            + FILENAME_SUFFIX@,
        name is Some && local_year_has_four_digits(unix_secs as int, utc_offset_secs as int)
            ==> is_timestamp(chrono_local_stamp(unix_secs as int, utc_offset_secs as int)),
        name matches Some(n) ==> (local_year_has_four_digits(unix_secs as int, utc_offset_secs as int)
            ==> is_name_of_moment(n@, local_seconds_since_year_zero(unix_secs as int, utc_offset_secs as int))),
{
    if utc_offset_secs <= -86400 || utc_offset_secs >= 86400 || unix_secs < EARLIEST_UNIX_SECS
        || unix_secs > LATEST_UNIX_SECS {
        return None;
    }
    match format_local_stamp(unix_secs, utc_offset_secs, TIMESTAMP_FORMAT) {
        Some(stamp) => {
            let name = screenshot_filename_for(stamp.as_str());
            proof {
                if local_year_has_four_digits(unix_secs as int, utc_offset_secs as int) {
                    lemma_stamp_shape(stamp@, local_seconds_since_year_zero(unix_secs as int, utc_offset_secs as int));
                    assert(name@ == FILENAME_PREFIX@ + stamp@ + FILENAME_SUFFIX@);
                }
            }
            Some(name)
        },
        None => None,
    }
}

/// File names sort as their stamps do: for stamps of equal length (as all
/// stamps of [`is_timestamp`] are), one name comes before another in text
/// order exactly when its stamp does.
pub proof fn lemma_names_sort_like_stamps(stamp1: Seq<char>, stamp2: Seq<char>)
    requires
        stamp1.len() == stamp2.len(),
    ensures
        text_le(FILENAME_PREFIX@ + stamp1 + FILENAME_SUFFIX@, FILENAME_PREFIX@ + stamp2 + FILENAME_SUFFIX@)
            == text_le(stamp1, stamp2),
{
    let p = FILENAME_PREFIX@;
    let s = FILENAME_SUFFIX@;
    assert(p + stamp1 + s =~= p + (stamp1 + s));
    assert(p + stamp2 + s =~= p + (stamp2 + s));
    lemma_text_le_common_prefix(p, stamp1 + s, stamp2 + s);
    lemma_text_le_common_suffix(stamp1, stamp2, s);
}

/// File names sort by time: the name of a local moment comes, in text
/// order, no later than the name of any moment not earlier than it (two
/// moments in the same second get the same name).
pub proof fn lemma_names_sort_by_time(name1: Seq<char>, name2: Seq<char>, t1: int, t2: int)
    requires
        is_name_of_moment(name1, t1),
        is_name_of_moment(name2, t2),
        t1 <= t2,
    ensures
        text_le(name1, name2),
{
    let s1 = choose|stamp: Seq<char>|
        is_stamp_of(stamp, t1) && name1 == FILENAME_PREFIX@ + stamp + FILENAME_SUFFIX@;
    let s2 = choose|stamp: Seq<char>|
        is_stamp_of(stamp, t2) && name2 == FILENAME_PREFIX@ + stamp + FILENAME_SUFFIX@;
    lemma_stamps_sort_by_time(s1, s2, t1, t2);
    lemma_stamp_length(s1, t1);
    lemma_stamp_length(s2, t2);
    lemma_names_sort_like_stamps(s1, s2);
}

/// The path of a screenshot from what parsing its URI gave: the file path
/// where the URI was a file URL, else the bytes of the URI itself.
pub fn path_from_parsed_uri(parsed: Option<Vec<u8>>, uri: &str) -> (path: Vec<u8>)
    ensures
        path@ == match parsed {
            Some(p) => p@,
            None => uri.spec_bytes(),
        },
{
    match parsed {
        Some(p) => p,
        None => uri.as_bytes_vec(),
    }
}

/// The local path (as bytes) of the screenshot at `uri`: the path of a file
/// URL, or `uri` itself where it is not one.
pub fn uri_to_path(uri: &str) -> (path: Vec<u8>)
    ensures
        path@ == match url_file_path(uri@) {
            Some(p) => p,
            None => uri.spec_bytes(),
        },
{
    let parsed = file_url_to_path(uri);
    path_from_parsed_uri(parsed, uri)
}

} // verus!
