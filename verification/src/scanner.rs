use vstd::prelude::*;

use crate::db::catalog_columns;
use crate::db::catalog_rows;
use crate::db::current_columns;
use crate::db::insert_record;
use crate::db::insert_row;
use crate::db::CatalogError;
use crate::models::RecordModel;
use crate::parser::is_valid_video_path;
use crate::parser::parse_path;
use crate::parser::spec_record_of;

verus! {

/// One candidate file found under the scan root: its path and the
/// filesystem metadata the parser needs.  The caller gathers these by
/// walking the directory tree; entries it cannot read are simply never
/// handed in, mirroring the parser's silent rejections.
pub struct CandidateFile {
    pub path: String,
    pub file_size: u64,
    pub created_unix: i64,
}

/// The mathematical image of a candidate file.
pub struct CandidateModel {
    pub path: Seq<char>,
    pub file_size: u64,
    pub created_unix: int,
}

impl View for CandidateFile {
    type V = CandidateModel;

    open spec fn view(&self) -> CandidateModel {
        CandidateModel {
            path: self.path@,
            file_size: self.file_size,
            created_unix: self.created_unix as int,
        }
    }
}

/// The views of a sequence of candidates.
pub open spec fn metas_of(s: Seq<CandidateFile>) -> Seq<CandidateModel> {
    s.map_values(|f: CandidateFile| f@)
}

/// A candidate the scan catalogs: its path is well formed and its metadata
/// values lie in the range the catalog's integers can carry.
pub open spec fn accepted(f: CandidateModel) -> bool {
    &&& f.created_unix >= i64::MIN + 86400
    &&& f.file_size <= i64::MAX as u64
    &&& is_valid_video_path(f.path)
}

/// The record an accepted candidate contributes.
pub open spec fn record_of_meta(f: CandidateModel) -> RecordModel {
    spec_record_of(f.path, f.file_size, f.created_unix)
}

/// The catalog rows after scanning the first `n` candidates into `m`: each
/// accepted candidate is inserted if its path is absent, in order, and the
/// rest leave the catalog alone.
pub open spec fn scan_rows(m: Map<Seq<char>, RecordModel>, files: Seq<CandidateModel>, n: int) -> Map<
    Seq<char>,
    RecordModel,
>
    decreases n,
{
    if n <= 0 {
        m
    } else {
        let prev = scan_rows(m, files, n - 1);
        if accepted(files[n - 1]) {
            insert_row(prev, record_of_meta(files[n - 1]))
        } else {
            prev
        }
    }
}

/// How many of the first `n` candidates actually added a row: those
/// accepted whose path the catalog did not yet hold.
pub open spec fn scan_count(m: Map<Seq<char>, RecordModel>, files: Seq<CandidateModel>, n: int) -> int
    decreases n,
{
    if n <= 0 {
        0
    } else {
        let prev = scan_rows(m, files, n - 1);
        scan_count(m, files, n - 1) + (if accepted(files[n - 1]) && !prev.contains_key(
            files[n - 1].path,
        ) {
            1int
        } else {
            0int
        })
    }
}

/// After the scan, every accepted candidate's path is cataloged.
proof fn lemma_scan_rows_covers(
    m: Map<Seq<char>, RecordModel>,
    files: Seq<CandidateModel>,
    n: int,
    j: int,
)
    requires
        0 <= j < n,
        accepted(files[j]),
    ensures
        scan_rows(m, files, n).contains_key(files[j].path),
    decreases n,
{
    if j == n - 1 {
    } else {
        lemma_scan_rows_covers(m, files, n - 1, j);
    }
}

/// Scanning candidates whose accepted paths a catalog already holds
/// changes nothing and counts nothing.
proof fn lemma_scan_rows_noop(
    m: Map<Seq<char>, RecordModel>,
    files: Seq<CandidateModel>,
    n: int,
)
    requires
        forall|j: int| 0 <= j < n && accepted(#[trigger] files[j]) ==> m.contains_key(
            files[j].path,
        ),
    ensures
        scan_rows(m, files, n) == m,
        scan_count(m, files, n) == 0,
    decreases n,
{
    if n > 0 {
        lemma_scan_rows_noop(m, files, n - 1);
    }
}

/// Law: a path whose file name lacks the video extension is never added by
/// a scan, whatever candidate carried it — afterwards the catalog holds the
/// path exactly when it held it before.
pub proof fn lemma_scan_rejects_wrong_extension(
    m: Map<Seq<char>, RecordModel>,
    files: Seq<CandidateModel>,
    n: int,
    k: Seq<char>,
)
    requires
        !crate::parser::has_video_extension(crate::parser::file_name_of(k)),
    ensures
        scan_rows(m, files, n).contains_key(k) == m.contains_key(k),
    decreases n,
{
    if n > 0 {
        lemma_scan_rejects_wrong_extension(m, files, n - 1, k);
        if accepted(files[n - 1]) {
            assert(files[n - 1].path != k);
            assert(record_of_meta(files[n - 1]).file_path == files[n - 1].path);
        }
    }
}

/// Law: a scan is idempotent.  Scanning the same candidates into the
/// catalog a second time leaves the rows exactly as the first scan left
/// them, and the second scan's count of added rows is zero.
pub proof fn lemma_scan_idempotent(m: Map<Seq<char>, RecordModel>, files: Seq<CandidateModel>)
    ensures
        scan_rows(scan_rows(m, files, files.len() as int), files, files.len() as int) == scan_rows(
            m,
            files,
            files.len() as int,
        ),
        scan_count(scan_rows(m, files, files.len() as int), files, files.len() as int) == 0,
{
    let once = scan_rows(m, files, files.len() as int);
    assert forall|j: int| 0 <= j < files.len() && accepted(#[trigger] files[j]) implies once
        .contains_key(files[j].path) by {
        lemma_scan_rows_covers(m, files, files.len() as int, j);
    }
    lemma_scan_rows_noop(once, files, files.len() as int);
}

/// Catalogs a batch of candidate files: each is parsed by the path rules
/// and, when valid, inserted keyed by its path, with paths the catalog
/// already holds left untouched.  Returns how many rows were actually
/// added.  Candidates with malformed paths, or metadata outside the range
/// the catalog's integers carry, are silently skipped.  The whole batch
/// runs inside one transaction: a storage fault rolls it back and reports
/// a `Storage` fault with the rows as they were at the call, so no
/// partial batch is ever committed; only when that rollback itself fails
/// is the state unconfirmed, reported as `Unsettled` with nothing
/// claimed.
pub fn scan_candidates(conn: &mut rusqlite::Connection, files: &Vec<CandidateFile>) -> (r: Result<
    usize,
    CatalogError,
>)
    requires
        catalog_columns(*old(conn)) == current_columns(),
    ensures
        r matches Ok(n) ==> catalog_columns(*final(conn)) == catalog_columns(*old(conn))
            && catalog_rows(*final(conn)) == scan_rows(
            catalog_rows(*old(conn)),
            metas_of(files@),
            files@.len() as int,
        ) && n == scan_count(catalog_rows(*old(conn)), metas_of(files@), files@.len() as int),
        r matches Err(CatalogError::Storage(_)) ==> catalog_rows(*final(conn)) == catalog_rows(
            *old(conn),
        ),
{
    let ghost m0 = catalog_rows(*old(conn));
    let ghost fv = metas_of(files@);
    match crate::db::tx_begin(conn) {
        Ok(_) => (),
        Err(e) => { return Err(CatalogError::Storage(crate::db::storage_error_text(&e))) },
    }
    let mut added: usize = 0;
    let mut i: usize = 0;
    while i < files.len()
        invariant
            0 <= i <= files.len(),
            m0 == catalog_rows(*old(conn)),
            fv == metas_of(files@),
            fv.len() == files@.len(),
            catalog_columns(*conn) == current_columns(),
            catalog_columns(*conn) == catalog_columns(*old(conn)),
            catalog_rows(*conn) == scan_rows(m0, fv, i as int),
            crate::db::catalog_tx_base(*conn) == m0,
            added == scan_count(m0, fv, i as int),
            added <= i,
        decreases files.len() - i,
    {
        let f = &files[i];
        if f.created_unix >= i64::MIN + 86400 && f.file_size <= (i64::MAX as u64) {
            match parse_path(f.path.as_str(), f.file_size, f.created_unix) {
                Some(rec) => {
                    proof {
                        assert(accepted(fv[i as int]));
                        assert(rec@ == record_of_meta(fv[i as int]));
                    }
                    match insert_record(conn, &rec) {
                        Ok(n) => {
                            if n > 0 {
                                added = added + 1;
                            }
                        },
                        Err(e) => {
                            match crate::db::tx_rollback(conn) {
                                Ok(_) => { return Err(e) },
                                Err(e2) => {
                                    return Err(
                                        CatalogError::Unsettled(
                                            crate::db::storage_error_text(&e2),
                                        ),
                                    );
                                },
                            }
                        },
                    }
                },
                None => {
                    proof {
                        assert(!accepted(fv[i as int]));
                    }
                },
            }
        } else {
            proof {
                assert(!accepted(fv[i as int]));
            }
        }
        i += 1;
    }
    match crate::db::tx_commit(conn) {
        Ok(_) => (),
        Err(e) => {
            match crate::db::tx_rollback(conn) {
                Ok(_) => {
                    return Err(CatalogError::Storage(crate::db::storage_error_text(&e)));
                },
                Err(e2) => {
                    return Err(CatalogError::Unsettled(crate::db::storage_error_text(&e2)));
                },
            }
        },
    }
    Ok(added)
}

} // verus!
