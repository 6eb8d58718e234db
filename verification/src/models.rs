use vstd::prelude::*;

use crate::text::lex_lt;

verus! {

/// One cataloged video file and its derived metadata.
///
/// `start_time` and `end_time` are UTC timestamps in whole seconds since the
/// Unix epoch; the end is anchored to the filesystem creation time of the
/// file and the start is the end minus the duration encoded in the filename.
/// `date` is the name of the file's immediate parent directory (eight ASCII
/// digits, MMDDYYYY), kept verbatim as an opaque ordering key.
pub struct VideoRecording {
    pub camera_name: String,
    pub date: String,
    pub start_time: i64,
    pub end_time: i64,
    pub file_path: String,
    pub file_size: u64,
    pub deleted: bool,
}

/// The mathematical image of a catalog row: the fields of a
/// `VideoRecording` as sequences and unbounded integers.
pub struct RecordModel {
    pub camera_name: Seq<char>,
    pub date: Seq<char>,
    pub start_time: int,
    pub end_time: int,
    pub file_path: Seq<char>,
    pub file_size: u64,
    pub deleted: bool,
}

impl View for VideoRecording {
    type V = RecordModel;

    open spec fn view(&self) -> RecordModel {
        RecordModel {
            camera_name: self.camera_name@,
            date: self.date@,
            start_time: self.start_time as int,
            end_time: self.end_time as int,
            file_path: self.file_path@,
            file_size: self.file_size,
            deleted: self.deleted,
        }
    }
}

impl Clone for VideoRecording {
    fn clone(&self) -> (r: Self)
        ensures
            r@ == self@,
    {
        VideoRecording {
            camera_name: self.camera_name.clone(),
            date: self.date.clone(),
            start_time: self.start_time,
            end_time: self.end_time,
            file_path: self.file_path.clone(),
            file_size: self.file_size,
            deleted: self.deleted,
        }
    }
}

/// Catalog order: ascending by `date` (lexicographically, which on the
/// eight-digit MMDDYYYY keys is also the byte order the storage engine
/// uses), then by `start_time`.
pub open spec fn row_le(a: RecordModel, b: RecordModel) -> bool {
    ||| lex_lt(a.date, b.date)
    ||| (a.date == b.date && a.start_time <= b.start_time)
}

/// Any two rows are comparable under the catalog order.
pub proof fn lemma_row_le_total(a: RecordModel, b: RecordModel)
    ensures
        row_le(a, b) || row_le(b, a),
{
    crate::text::lemma_lex_lt_connected(a.date, b.date);
}

/// The catalog order is transitive.
pub proof fn lemma_row_le_transitive(a: RecordModel, b: RecordModel, c: RecordModel)
    ensures
        row_le(a, b) && row_le(b, c) ==> row_le(a, c),
{
    crate::text::lemma_lex_lt_transitive(a.date, b.date, c.date);
    crate::text::lemma_lex_lt_asymmetric(a.date, b.date);
    crate::text::lemma_lex_lt_asymmetric(b.date, c.date);
}

/// A sequence of rows in ascending catalog order.
pub open spec fn sorted_rows(s: Seq<RecordModel>) -> bool {
    forall|i: int, j: int| 0 <= i < j < s.len() ==> row_le(#[trigger] s[i], #[trigger] s[j])
}

/// The views of a sequence of recordings.
pub open spec fn views_of(s: Seq<VideoRecording>) -> Seq<RecordModel> {
    s.map_values(|x: VideoRecording| x@)
}

} // verus!
