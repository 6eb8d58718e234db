use vstd::prelude::*;

use crate::models::VideoRecording;
use crate::text::{all_digits, check_all_digits, digit_val, spec_split, split_on};

verus! {

// ---------------------------------------------------------------------------
// HHMMSS clock tokens
// ---------------------------------------------------------------------------

/// The hour field of a six-digit clock token.
pub open spec fn token_hours(s: Seq<char>) -> int {
    digit_val(s[0]) * 10 + digit_val(s[1])
}

/// The minute field of a six-digit clock token.
pub open spec fn token_minutes(s: Seq<char>) -> int {
    digit_val(s[2]) * 10 + digit_val(s[3])
}

/// The second field of a six-digit clock token.
pub open spec fn token_seconds(s: Seq<char>) -> int {
    digit_val(s[4]) * 10 + digit_val(s[5])
}

/// A well-formed clock token: exactly six ASCII digits, read as HHMMSS with
/// every component in range.
pub open spec fn is_time_token(s: Seq<char>) -> bool {
    &&& s.len() == 6
    &&& all_digits(s)
    &&& token_hours(s) < 24
    &&& token_minutes(s) < 60
    &&& token_seconds(s) < 60
}

/// Seconds since midnight encoded by a clock token.
pub open spec fn token_secs_of_day(s: Seq<char>) -> int {
    token_hours(s) * 3600 + token_minutes(s) * 60 + token_seconds(s)
}

/// Parses an HHMMSS string into seconds since midnight, rejecting anything
/// that is not six ASCII digits with hours below 24 and minutes and seconds
/// below 60.
pub fn parse_time_to_seconds(time_str: &str) -> (r: Option<u32>)
    ensures
        r matches Some(v) ==> is_time_token(time_str@) && v == token_secs_of_day(time_str@),
        r is None ==> !is_time_token(time_str@),
{
    let n = time_str.unicode_len();
    if n != 6 {
        return None;
    }
    let mut digits: Vec<u32> = Vec::new();
    let mut i: usize = 0;
    while i < 6
        invariant
            0 <= i <= 6,
            time_str@.len() == 6,
            digits@.len() == i,
            forall|k: int| 0 <= k < i ==> crate::text::is_digit(#[trigger] time_str@[k]),
            forall|k: int| 0 <= k < i ==> digits@[k] == digit_val(time_str@[k]),
        decreases 6 - i,
    {
        let c = time_str.get_char(i);
        let code = c as u32;
        if code < 48 || code > 57 {
            return None;
        }
        digits.push(code - 48);
        i += 1;
    }
    let hours = digits[0] * 10 + digits[1];
    let minutes = digits[2] * 10 + digits[3];
    let seconds = digits[4] * 10 + digits[5];
    if hours >= 24 || minutes >= 60 || seconds >= 60 {
        return None;
    }
    Some(hours * 3600 + minutes * 60 + seconds)
}

// ---------------------------------------------------------------------------
// Path structure
// ---------------------------------------------------------------------------

/// The `/`-separated components of a path.
pub open spec fn path_pieces(path: Seq<char>) -> Seq<Seq<char>> {
    spec_split(path, '/')
}

/// The file name: the last path component.
pub open spec fn file_name_of(path: Seq<char>) -> Seq<char> {
    path_pieces(path).last()
}

/// The name of the immediate parent directory: the next-to-last component.
pub open spec fn parent_dir_of(path: Seq<char>) -> Seq<char> {
    path_pieces(path)[path_pieces(path).len() - 2]
}

/// The file name carries the camera vendor's video extension `.mp4`.
pub open spec fn has_video_extension(name: Seq<char>) -> bool {
    &&& name.len() >= 4
    &&& name[name.len() - 4] == '.'
    &&& name[name.len() - 3] == 'm'
    &&& name[name.len() - 2] == 'p'
    &&& name[name.len() - 1] == '4'
}

/// The file name without its `.mp4` extension.
pub open spec fn stem_of(path: Seq<char>) -> Seq<char> {
    file_name_of(path).take(file_name_of(path).len() - 4)
}

/// The dash-delimited fields of the file name's stem:
/// `<camera>-<channel>-<start>-<end>`.
pub open spec fn name_fields(path: Seq<char>) -> Seq<Seq<char>> {
    spec_split(stem_of(path), '-')
}

/// A directory named by exactly eight ASCII digits, read as MMDDYYYY.
pub open spec fn is_date_dir(s: Seq<char>) -> bool {
    s.len() == 8 && all_digits(s)
}

/// A path the parser accepts: video extension, eight-digit parent directory,
/// exactly four dash-delimited name fields, and valid clock tokens in the
/// third and fourth fields.
pub open spec fn is_valid_video_path(path: Seq<char>) -> bool {
    &&& path_pieces(path).len() >= 2
    &&& has_video_extension(file_name_of(path))
    &&& is_date_dir(parent_dir_of(path))
    &&& name_fields(path).len() == 4
    &&& is_time_token(name_fields(path)[2])
    &&& is_time_token(name_fields(path)[3])
}

/// The recording duration encoded by the two clock tokens, in seconds.
/// When the end reads earlier than the start the recording crossed
/// midnight, so a full day is added.  Always in `[0, 86400)`.
pub open spec fn spec_duration(start_tok: Seq<char>, end_tok: Seq<char>) -> int {
    let s = token_secs_of_day(start_tok);
    let e = token_secs_of_day(end_tok);
    if e >= s {
        e - s
    } else {
        86400 - s + e
    }
}

/// The duration a valid path encodes.
pub open spec fn duration_of(path: Seq<char>) -> int {
    spec_duration(name_fields(path)[2], name_fields(path)[3])
}

/// The record a valid candidate yields: the camera name and date come from
/// the path, the end time is the filesystem creation instant, and the start
/// time lies the encoded duration before it.
pub open spec fn spec_record_of(path: Seq<char>, size: u64, created: int) -> crate::models::RecordModel {
    crate::models::RecordModel {
        camera_name: name_fields(path)[0],
        date: parent_dir_of(path),
        start_time: created - duration_of(path),
        end_time: created,
        file_path: path,
        file_size: size,
        deleted: false,
    }
}

/// Turns one candidate file into a catalog record, or rejects it.
///
/// The caller supplies the file's byte size and its filesystem creation time
/// as UTC unix seconds; the parser derives everything else from the path
/// text alone.  The creation time anchors `end_time`, and the filename's
/// clock tokens contribute only the duration, subtracted to obtain
/// `start_time` — the tokens are never trusted as absolute timestamps.
pub fn parse_path(path: &str, file_size: u64, created_unix: i64) -> (r: Option<VideoRecording>)
    requires
        created_unix >= i64::MIN + 86400,
    ensures
        r is Some <==> is_valid_video_path(path@),
        r matches Some(rec) ==> rec@ == spec_record_of(path@, file_size, created_unix as int),
        r matches Some(rec) ==> 0 <= rec.end_time - rec.start_time < 86400,
{
    let pieces = split_on(path, '/');
    if pieces.len() < 2 {
        return None;
    }
    let file_name = &pieces[pieces.len() - 1];
    let parent = &pieces[pieces.len() - 2];
    proof {
        assert(file_name@ == file_name_of(path@));
        assert(parent@ == parent_dir_of(path@));
    }
    if parent.as_str().unicode_len() != 8 || !check_all_digits(parent.as_str()) {
        return None;
    }
    let name = file_name.as_str();
    let name_len = name.unicode_len();
    if name_len < 4 {
        return None;
    }
    if name.get_char(name_len - 4) != '.' || name.get_char(name_len - 3) != 'm' || name.get_char(
        name_len - 2,
    ) != 'p' || name.get_char(name_len - 1) != '4' {
        return None;
    }
    let stem = name.substring_char(0, name_len - 4);
    proof {
        assert(stem@ =~= stem_of(path@));
    }
    let fields = split_on(stem, '-');
    if fields.len() != 4 {
        return None;
    }
    let start_secs = match parse_time_to_seconds(fields[2].as_str()) {
        Some(v) => v,
        None => { return None },
    };
    let end_secs = match parse_time_to_seconds(fields[3].as_str()) {
        Some(v) => v,
        None => { return None },
    };
    let duration: u32 = if end_secs >= start_secs {
        end_secs - start_secs
    } else {
        (86400 - start_secs) + end_secs
    };
    let start_time = created_unix - (duration as i64);
    Some(
        VideoRecording {
            camera_name: fields[0].clone(),
            date: parent.clone(),
            start_time,
            end_time: created_unix,
            file_path: path.to_owned(),
            file_size,
            deleted: false,
        },
    )
}

} // verus!
