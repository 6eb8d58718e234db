use vstd::prelude::*;

use crate::models::VideoRecording;
use crate::parser::is_time_token;
use crate::parser::token_secs_of_day;
use crate::text::all_digits;
use crate::text::digit_val;
use crate::text::spec_split;
use crate::text::split_on;

verus! {

// ---------------------------------------------------------------------------
// Query and response shapes of the viewer's interface
// ---------------------------------------------------------------------------

/// Filters and pagination for the video listing.
#[derive(Debug)]
pub struct VideoQuery {
    pub page: Option<u32>,
    pub limit: Option<u32>,
    pub camera: Option<String>,
    pub date_from: Option<String>,
    pub date_to: Option<String>,
}

/// One recording as the viewer presents it.
#[derive(Debug)]
pub struct VideoResponse {
    pub id: String,
    pub camera_name: String,
    pub date: String,
    pub start_time: String,
    pub end_time: String,
    pub file_size: u64,
    pub file_path: String,
    pub deleted: bool,
}

/// One page of recordings.
#[derive(Debug)]
pub struct VideosListResponse {
    pub videos: Vec<VideoResponse>,
    pub total: u32,
    pub page: u32,
    pub limit: u32,
}

/// One camera and its recording count.
#[derive(Debug)]
pub struct CameraResponse {
    pub name: String,
    pub video_count: u32,
    pub last_recording: Option<String>,
}

/// A free-text search over the catalog.
#[derive(Debug)]
pub struct SearchRequest {
    pub query: String,
    pub camera: Option<String>,
    pub date_from: Option<String>,
    pub date_to: Option<String>,
}

// ---------------------------------------------------------------------------
// Decimal numbers
// ---------------------------------------------------------------------------

/// The number a sequence of decimal digits denotes.
pub open spec fn dec_value(s: Seq<char>) -> int
    decreases s.len(),
{
    if s.len() == 0 {
        0
    } else {
        dec_value(s.drop_last()) * 10 + digit_val(s.last())
    }
}

/// What a decimal string parses to: its value, if it is all digits,
/// nonempty, and fits in 64 bits.
pub open spec fn parsed_u64(s: Seq<char>) -> Option<u64> {
    if s.len() > 0 && all_digits(s) && dec_value(s) <= u64::MAX {
        Some(dec_value(s) as u64)
    } else {
        None
    }
}

/// A digit string's value is never negative.
proof fn lemma_dec_value_nonneg(s: Seq<char>)
    requires
        all_digits(s),
    ensures
        dec_value(s) >= 0,
    decreases s.len(),
{
    if s.len() > 0 {
        assert(forall|i: int| 0 <= i < s.drop_last().len() ==> crate::text::is_digit(
            #[trigger] s.drop_last()[i],
        ));
        lemma_dec_value_nonneg(s.drop_last());
        assert(crate::text::is_digit(s.last()));
    }
}

/// Extending a digit string never shrinks its value.
proof fn lemma_dec_value_monotone(s: Seq<char>, i: int)
    requires
        all_digits(s),
        0 <= i <= s.len(),
    ensures
        dec_value(s.take(i)) <= dec_value(s),
    decreases s.len() - i,
{
    if i < s.len() {
        lemma_dec_value_monotone(s, i + 1);
        assert(s.take(i + 1).drop_last() =~= s.take(i));
        assert(s.take(i + 1).last() == s[i]);
        assert(forall|k: int| 0 <= k < s.take(i).len() ==> crate::text::is_digit(
            #[trigger] s.take(i)[k],
        ));
        lemma_dec_value_nonneg(s.take(i));
        assert(crate::text::is_digit(s[i]));
    } else {
        assert(s.take(i) =~= s);
    }
}

/// Parses a nonempty all-digit decimal string into a 64-bit number; any
/// other string, or a value past 64 bits, is rejected.
fn parse_u64(s: &str) -> (r: Option<u64>)
    ensures
        r == parsed_u64(s@),
{
    let n = s.unicode_len();
    if n == 0 {
        return None;
    }
    let mut acc: u128 = 0;
    let mut i: usize = 0;
    proof {
        assert(s@.take(0) =~= Seq::<char>::empty());
    }
    while i < n
        invariant
            0 < n == s@.len(),
            0 <= i <= n,
            forall|k: int| 0 <= k < i ==> crate::text::is_digit(#[trigger] s@[k]),
            acc == dec_value(s@.take(i as int)),
            acc <= u64::MAX,
        decreases n - i,
    {
        let c = s.get_char(i);
        let code = c as u32;
        if code < 48 || code > 57 {
            return None;
        }
        proof {
            assert(s@.take(i as int + 1).drop_last() =~= s@.take(i as int));
            assert(s@.take(i as int + 1).last() == s@[i as int]);
        }
        acc = acc * 10 + ((code - 48) as u128);
        i += 1;
        if acc > u64::MAX as u128 {
            proof {
                // a longer digit string only grows, so the whole value is
                // past 64 bits too
                if all_digits(s@) {
                    lemma_dec_value_monotone(s@, i as int);
                }
            }
            return None;
        }
    }
    proof {
        assert(s@.take(n as int) =~= s@);
    }
    Some(acc as u64)
}

// ---------------------------------------------------------------------------
// HTTP range headers
// ---------------------------------------------------------------------------

/// The header names a byte range: it opens with `bytes=`.
pub open spec fn has_bytes_prefix(s: Seq<char>) -> bool {
    &&& s.len() >= 6
    &&& s[0] == 'b'
    &&& s[1] == 'y'
    &&& s[2] == 't'
    &&& s[3] == 'e'
    &&& s[4] == 's'
    &&& s[5] == '='
}

/// What a range header denotes against a file of `file_size` bytes: after
/// `bytes=` come exactly two dash-separated fields; an empty first field
/// means the file's start and an empty second field its last byte, and a
/// non-numeric field rejects the header.  The bounds are handed back as
/// given; whether they fit each other or the file is the caller's check.
pub open spec fn spec_range_header(s: Seq<char>, file_size: u64) -> Option<(u64, u64)> {
    if !has_bytes_prefix(s) {
        None
    } else {
        let parts = spec_split(s.skip(6), '-');
        if parts.len() != 2 {
            None
        } else {
            let start = if parts[0].len() == 0 {
                Some(0u64)
            } else {
                parsed_u64(parts[0])
            };
            let end = if parts[1].len() == 0 {
                Some((file_size - 1) as u64)
            } else {
                parsed_u64(parts[1])
            };
            if start is Some && end is Some {
                Some((start.unwrap(), end.unwrap()))
            } else {
                None
            }
        }
    }
}

/// Reads an HTTP `Range` header such as `bytes=0-1023`, `bytes=500-` or
/// `bytes=-500`, resolving an omitted start to `0` and an omitted end to
/// the file's last byte.
pub fn parse_range_header(range_header: &str, file_size: u64) -> (r: Option<(u64, u64)>)
    requires
        file_size >= 1,
    ensures
        r == spec_range_header(range_header@, file_size),
{
    let n = range_header.unicode_len();
    if n < 6 {
        return None;
    }
    if range_header.get_char(0) != 'b' || range_header.get_char(1) != 'y'
        || range_header.get_char(2) != 't' || range_header.get_char(3) != 'e'
        || range_header.get_char(4) != 's' || range_header.get_char(5) != '=' {
        return None;
    }
    let rest = range_header.substring_char(6, n);
    proof {
        assert(rest@ =~= range_header@.skip(6));
    }
    let parts = split_on(rest, '-');
    if parts.len() != 2 {
        return None;
    }
    let start = if parts[0].as_str().unicode_len() == 0 {
        0u64
    } else {
        match parse_u64(parts[0].as_str()) {
            Some(v) => v,
            None => { return None },
        }
    };
    let end = if parts[1].as_str().unicode_len() == 0 {
        file_size - 1
    } else {
        match parse_u64(parts[1].as_str()) {
            Some(v) => v,
            None => { return None },
        }
    };
    Some((start, end))
}

// ---------------------------------------------------------------------------
// Clock-of-day formatting
// ---------------------------------------------------------------------------

/// One ASCII digit as a string.
fn digit_str(d: u8) -> (r: &'static str)
    requires
        d < 10,
    ensures
        r@.len() == 1,
        crate::text::is_digit(r@[0]),
        digit_val(r@[0]) == d as int,
{
    proof {
        reveal_strlit("0");
        reveal_strlit("1");
        reveal_strlit("2");
        reveal_strlit("3");
        reveal_strlit("4");
        reveal_strlit("5");
        reveal_strlit("6");
        reveal_strlit("7");
        reveal_strlit("8");
        reveal_strlit("9");
    }
    match d {
        0 => "0",
        1 => "1",
        2 => "2",
        3 => "3",
        4 => "4",
        5 => "5",
        6 => "6",
        7 => "7",
        8 => "8",
        _ => "9",
    }
}

/// Renders the time of day of a UTC unix timestamp as a six-digit HHMMSS
/// string — the clock form the camera writes into its filenames.  A
/// pre-epoch timestamp reads as the nonnegative remainder of the day, so
/// every instant has a clock time.
pub fn format_time_to_string(unix_secs: i64) -> (r: String)
    ensures
        is_time_token(r@),
        token_secs_of_day(r@) == (unix_secs as int) % 86400,
{
    let rem = unix_secs % 86400;
    let sod: u64 = if rem < 0 {
        (rem + 86400) as u64
    } else {
        rem as u64
    };
    let h = sod / 3600;
    let m = (sod % 3600) / 60;
    let s = sod % 60;
    let mut out = String::new();
    out.append(digit_str((h / 10) as u8));
    out.append(digit_str((h % 10) as u8));
    out.append(digit_str((m / 10) as u8));
    out.append(digit_str((m % 10) as u8));
    out.append(digit_str((s / 10) as u8));
    out.append(digit_str((s % 10) as u8));
    proof {
        assert(out@.len() == 6);
        assert(h < 24 && m < 60 && s < 60);
        assert(h * 3600 + m * 60 + s == sod) by {
            assert(sod == (sod / 3600) * 3600 + sod % 3600);
            assert(sod % 3600 == ((sod % 3600) / 60) * 60 + (sod % 3600) % 60);
            assert((sod % 3600) % 60 == sod % 60) by (nonlinear_arith);
        }
        assert(crate::parser::token_hours(out@) == h);
        assert(crate::parser::token_minutes(out@) == m);
        assert(crate::parser::token_seconds(out@) == s);
    }
    out
}

// ---------------------------------------------------------------------------
// ISO dates
// ---------------------------------------------------------------------------

/// The Gregorian leap-year rule.
pub open spec fn is_leap_year(y: int) -> bool {
    y % 4 == 0 && (y % 100 != 0 || y % 400 == 0)
}

/// The days each month holds in year `y`.
pub open spec fn days_in_month(y: int, m: int) -> int {
    if m == 2 {
        if is_leap_year(y) {
            29
        } else {
            28
        }
    } else if m == 4 || m == 6 || m == 9 || m == 11 {
        30
    } else {
        31
    }
}

/// The year of a well-shaped ISO date string.
pub open spec fn iso_year(s: Seq<char>) -> int {
    ((digit_val(s[0]) * 10 + digit_val(s[1])) * 10 + digit_val(s[2])) * 10 + digit_val(s[3])
}

/// The month of a well-shaped ISO date string.
pub open spec fn iso_month(s: Seq<char>) -> int {
    digit_val(s[5]) * 10 + digit_val(s[6])
}

/// The day of a well-shaped ISO date string.
pub open spec fn iso_day(s: Seq<char>) -> int {
    digit_val(s[8]) * 10 + digit_val(s[9])
}

/// A calendar-valid `YYYY-MM-DD` date: ten characters, digits in the three
/// fields, dashes between them, a month from 1 to 12 and a day the month
/// holds in that year.
pub open spec fn is_iso_date(s: Seq<char>) -> bool {
    &&& s.len() == 10
    &&& s[4] == '-'
    &&& s[7] == '-'
    &&& all_digits(s.subrange(0, 4))
    &&& all_digits(s.subrange(5, 7))
    &&& all_digits(s.subrange(8, 10))
    &&& 1 <= iso_month(s) <= 12
    &&& 1 <= iso_day(s) <= days_in_month(iso_year(s), iso_month(s))
}

/// The catalog's key for an ISO date: the same digits reordered MMDDYYYY.
pub open spec fn db_date_of(s: Seq<char>) -> Seq<char> {
    s.subrange(5, 7) + s.subrange(8, 10) + s.subrange(0, 4)
}

/// Turns a calendar-valid `YYYY-MM-DD` string into the catalog's MMDDYYYY
/// key, and rejects anything else.
pub fn convert_iso_date_to_db_format(iso_date: &str) -> (r: Option<String>)
    ensures
        r matches Some(t) ==> is_iso_date(iso_date@) && t@ == db_date_of(iso_date@),
        r is None ==> !is_iso_date(iso_date@),
{
    let n = iso_date.unicode_len();
    if n != 10 {
        return None;
    }
    if iso_date.get_char(4) != '-' || iso_date.get_char(7) != '-' {
        return None;
    }
    let year_part = iso_date.substring_char(0, 4);
    let month_part = iso_date.substring_char(5, 7);
    let day_part = iso_date.substring_char(8, 10);
    if !crate::text::check_all_digits(year_part) || !crate::text::check_all_digits(month_part)
        || !crate::text::check_all_digits(day_part) {
        return None;
    }
    proof {
        assert(crate::text::is_digit(iso_date@[0])) by { assert(year_part@[0] == iso_date@[0]); }
        assert(crate::text::is_digit(iso_date@[1])) by { assert(year_part@[1] == iso_date@[1]); }
        assert(crate::text::is_digit(iso_date@[2])) by { assert(year_part@[2] == iso_date@[2]); }
        assert(crate::text::is_digit(iso_date@[3])) by { assert(year_part@[3] == iso_date@[3]); }
        assert(crate::text::is_digit(iso_date@[5])) by { assert(month_part@[0] == iso_date@[5]); }
        assert(crate::text::is_digit(iso_date@[6])) by { assert(month_part@[1] == iso_date@[6]); }
        assert(crate::text::is_digit(iso_date@[8])) by { assert(day_part@[0] == iso_date@[8]); }
        assert(crate::text::is_digit(iso_date@[9])) by { assert(day_part@[1] == iso_date@[9]); }
    }
    let y = field_value_4(iso_date);
    let m = field_value_2(iso_date, 5);
    let d = field_value_2(iso_date, 8);
    if m < 1 || m > 12 {
        return None;
    }
    let dim: u32 = if m == 2 {
        if (y % 4 == 0) && (y % 100 != 0 || y % 400 == 0) {
            29
        } else {
            28
        }
    } else if m == 4 || m == 6 || m == 9 || m == 11 {
        30
    } else {
        31
    };
    if d < 1 || d > dim {
        return None;
    }
    let mut out = String::new();
    out.append(month_part);
    out.append(day_part);
    out.append(year_part);
    proof {
        assert(out@ =~= db_date_of(iso_date@));
    }
    Some(out)
}

/// The numeric value of the four leading digits.
fn field_value_4(s: &str) -> (v: u32)
    requires
        s@.len() >= 4,
        crate::text::is_digit(s@[0]),
        crate::text::is_digit(s@[1]),
        crate::text::is_digit(s@[2]),
        crate::text::is_digit(s@[3]),
    ensures
        v == ((digit_val(s@[0]) * 10 + digit_val(s@[1])) * 10 + digit_val(s@[2])) * 10 + digit_val(
            s@[3],
        ),
{
    let a = (s.get_char(0) as u32) - 48;
    let b = (s.get_char(1) as u32) - 48;
    let c = (s.get_char(2) as u32) - 48;
    let d = (s.get_char(3) as u32) - 48;
    ((a * 10 + b) * 10 + c) * 10 + d
}

/// The numeric value of the two digits at `at`.
fn field_value_2(s: &str, at: usize) -> (v: u32)
    requires
        at + 2 <= s@.len(),
        at + 2 <= usize::MAX,
        crate::text::is_digit(s@[at as int]),
        crate::text::is_digit(s@[at as int + 1]),
    ensures
        v == digit_val(s@[at as int]) * 10 + digit_val(s@[at as int + 1]),
{
    let a = (s.get_char(at) as u32) - 48;
    let b = (s.get_char(at + 1) as u32) - 48;
    a * 10 + b
}

/// Renders one recording for the viewer, under the identifier the caller
/// assigned it.
pub fn to_video_response(id: String, rec: &VideoRecording) -> (r: VideoResponse)
    ensures
        r.id == id,
        r.camera_name@ == rec.camera_name@,
        r.date@ == rec.date@,
        is_time_token(r.start_time@) && token_secs_of_day(r.start_time@) == (
        rec.start_time as int) % 86400,
        is_time_token(r.end_time@) && token_secs_of_day(r.end_time@) == (rec.end_time as int)
            % 86400,
        r.file_size == rec.file_size,
        r.file_path@ == rec.file_path@,
        r.deleted == rec.deleted,
{
    VideoResponse {
        id,
        camera_name: rec.camera_name.clone(),
        date: rec.date.clone(),
        start_time: format_time_to_string(rec.start_time),
        end_time: format_time_to_string(rec.end_time),
        file_size: rec.file_size,
        file_path: rec.file_path.clone(),
        deleted: rec.deleted,
    }
}

} // verus!

