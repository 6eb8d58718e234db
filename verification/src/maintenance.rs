use vstd::prelude::*;

use crate::db::active_listing;
use crate::db::catalog_columns;
use crate::db::catalog_rows;
use crate::db::current_columns;
use crate::db::mark_row_deleted;
use crate::db::mark_as_deleted;
use crate::db::get_all_non_deleted_recordings;
use crate::db::tx_begin;
use crate::db::tx_commit;
use crate::db::tx_rollback;
use crate::db::CatalogError;
use crate::models::views_of;
use crate::models::RecordModel;
use crate::models::VideoRecording;

verus! {

// ---------------------------------------------------------------------------
// Quota strings
// ---------------------------------------------------------------------------

/// The byte count a human-readable size string denotes — the value
/// `byte_unit` assigns to strings such as `"10GB"` or `"500MB"` — or
/// nothing for a string it rejects, which in this build includes a size
/// past `u64::MAX`.  The result depends on the characters alone.
pub uninterp spec fn parsed_quota(s: Seq<char>) -> Option<u64>;

/// Relies on `byte_unit::Byte::from_str` (a pure function of the string)
/// and `Byte::as_u64`.
#[verifier::external_body]
fn parse_byte_quota(s: &str) -> (r: Option<u64>)
    ensures
        r == parsed_quota(s@),
{
    match <byte_unit::Byte as core::str::FromStr>::from_str(s) {
        Ok(b) => Some(b.as_u64()),
        Err(_) => None,
    }
}

/// A fault met while enforcing the quota.
#[derive(Debug)]
pub enum MaintenanceError {
    /// The quota string is not a byte size the configuration accepts.
    BadQuota,
    /// The storage engine refused a statement; the text is its message.
    /// The run was rolled back and the catalog is as it was.
    Storage(String),
    /// The storage engine refused a statement and the rollback that
    /// followed failed as well, so the catalog may hold part of the
    /// aborted run; the text is the rollback's message.
    Unsettled(String),
}

/// What a quota-enforcement run decided.
pub enum QuotaStatus {
    /// Total active size is within the quota; nothing to do.
    WithinQuota,
    /// Dry run: these recordings would be evicted, oldest first.
    WouldDelete(Vec<VideoRecording>),
    /// These recordings were flagged deleted in the catalog, oldest first.
    Deleted(Vec<VideoRecording>),
}

// ---------------------------------------------------------------------------
// Sizes and the victim prefix
// ---------------------------------------------------------------------------

/// The total byte size of a sequence of rows.
pub open spec fn sum_sizes(s: Seq<RecordModel>) -> int
    decreases s.len(),
{
    if s.len() == 0 {
        0
    } else {
        sum_sizes(s.drop_last()) + s.last().file_size
    }
}

/// How many of the oldest rows eviction takes: rows are accumulated until
/// they cover the deficit, always finishing the row that covers it, and
/// every row is taken when all together they cannot cover it.
pub open spec fn victim_count(s: Seq<RecordModel>, deficit: int) -> int
    decreases s.len(),
{
    if deficit <= 0 || s.len() == 0 {
        0
    } else {
        1 + victim_count(s.drop_first(), deficit - s.first().file_size)
    }
}

/// The victims `v` are exactly what eviction under `quota` selects from the
/// oldest-first listing `s`: the listing is over quota and `v` is the
/// victim prefix.
pub open spec fn eviction_plan(s: Seq<RecordModel>, quota: int, v: Seq<RecordModel>) -> bool {
    &&& sum_sizes(s) > quota
    &&& v == s.take(victim_count(s, sum_sizes(s) - quota))
}

/// `m` with the first `n` victims' rows flagged deleted.
pub open spec fn mark_victims(m: Map<Seq<char>, RecordModel>, v: Seq<RecordModel>, n: int) -> Map<
    Seq<char>,
    RecordModel,
>
    decreases n,
{
    if n <= 0 {
        m
    } else {
        mark_row_deleted(mark_victims(m, v, n - 1), v[n - 1].file_path)
    }
}

/// A total is never negative.
proof fn lemma_sum_nonneg(s: Seq<RecordModel>)
    ensures
        sum_sizes(s) >= 0,
    decreases s.len(),
{
    if s.len() > 0 {
        lemma_sum_nonneg(s.drop_last());
    }
}

/// A total is bounded by the row count times the largest size.
proof fn lemma_sum_bound(s: Seq<RecordModel>)
    ensures
        sum_sizes(s) <= s.len() * 0xffff_ffff_ffff_ffff,
    decreases s.len(),
{
    if s.len() > 0 {
        lemma_sum_bound(s.drop_last());
        assert(s.len() * 0xffff_ffff_ffff_ffff == (s.len() - 1) * 0xffff_ffff_ffff_ffff
            + 0xffff_ffff_ffff_ffff) by (nonlinear_arith);
    }
}

/// The total of a nonempty sequence splits off its first row.
proof fn lemma_sum_first_split(s: Seq<RecordModel>)
    requires
        s.len() > 0,
    ensures
        sum_sizes(s) == s[0].file_size + sum_sizes(s.drop_first()),
    decreases s.len(),
{
    if s.len() == 1 {
        assert(s.drop_last() =~= Seq::<RecordModel>::empty());
        assert(s.drop_first() =~= Seq::<RecordModel>::empty());
    } else {
        lemma_sum_first_split(s.drop_last());
        assert(s.drop_last()[0] == s[0]);
        assert(s.drop_first().drop_last() =~= s.drop_last().drop_first());
        assert(s.drop_first().last() == s.last());
    }
}

/// A prefix total splits off the first row.
proof fn lemma_sum_take_unfold(s: Seq<RecordModel>, j: int)
    requires
        1 <= j <= s.len(),
    ensures
        sum_sizes(s.take(j)) == s[0].file_size + sum_sizes(s.drop_first().take(j - 1)),
{
    lemma_sum_first_split(s.take(j));
    assert(s.take(j)[0] == s[0]);
    assert(s.take(j).drop_first() =~= s.drop_first().take(j - 1));
}

/// The total splits at any cut point.
pub proof fn lemma_sum_split(s: Seq<RecordModel>, k: int)
    requires
        0 <= k <= s.len(),
    ensures
        sum_sizes(s) == sum_sizes(s.take(k)) + sum_sizes(s.skip(k)),
    decreases s.len(),
{
    if k == s.len() {
        assert(s.take(k) =~= s);
        assert(s.skip(k) =~= Seq::<RecordModel>::empty());
    } else {
        lemma_sum_split(s.drop_last(), k);
        assert(s.drop_last().take(k) =~= s.take(k));
        assert(s.drop_last().skip(k) =~= s.skip(k).drop_last());
        assert(s.skip(k).last() == s.last());
        assert(s.skip(k).len() > 0);
    }
}

/// Law: eviction takes the shortest oldest-first prefix that covers the
/// deficit.  The count never exceeds the listing; every strictly shorter
/// prefix falls short of the deficit; and unless the whole listing is
/// taken, the chosen prefix covers it.
pub proof fn lemma_victim_count_spec(s: Seq<RecordModel>, deficit: int)
    requires
        deficit > 0,
    ensures
        ({
            let k = victim_count(s, deficit);
            &&& 0 <= k <= s.len()
            &&& forall|j: int| 0 <= j < k ==> sum_sizes(#[trigger] s.take(j)) < deficit
            &&& k < s.len() ==> sum_sizes(s.take(k)) >= deficit
        }),
    decreases s.len(),
{
    let k = victim_count(s, deficit);
    if s.len() == 0 {
    } else {
        let d2 = deficit - s[0].file_size;
        if d2 <= 0 {
            assert(victim_count(s.drop_first(), d2) == 0);
            assert(k == 1);
            lemma_sum_take_unfold(s, 1);
            assert(s.drop_first().take(0) =~= Seq::<RecordModel>::empty());
            assert(s.take(0) =~= Seq::<RecordModel>::empty());
        } else {
            lemma_victim_count_spec(s.drop_first(), d2);
            let k2 = victim_count(s.drop_first(), d2);
            assert(k == 1 + k2);
            assert forall|j: int| 0 <= j < k implies sum_sizes(#[trigger] s.take(j)) < deficit by {
                if j == 0 {
                    assert(s.take(0) =~= Seq::<RecordModel>::empty());
                } else {
                    lemma_sum_take_unfold(s, j);
                    assert(sum_sizes(s.drop_first().take(j - 1)) < d2);
                }
            }
            if k < s.len() {
                lemma_sum_take_unfold(s, k);
                assert(sum_sizes(s.drop_first().take(k2)) >= d2);
            }
        }
    }
}

/// The count that the accumulation loop reaches is the victim count: all
/// shorter prefixes fall short, and the loop stopped either on covering the
/// deficit or on running out of rows.
proof fn lemma_victim_count_eq(s: Seq<RecordModel>, deficit: int, i: int)
    requires
        deficit > 0,
        0 <= i <= s.len(),
        forall|j: int| 0 <= j < i ==> sum_sizes(#[trigger] s.take(j)) < deficit,
        sum_sizes(s.take(i)) >= deficit || i == s.len(),
    ensures
        victim_count(s, deficit) == i,
    decreases s.len(),
{
    if s.len() == 0 {
    } else if i == 0 {
        assert(s.take(0) =~= Seq::<RecordModel>::empty());
        assert(false);
    } else {
        let d2 = deficit - s[0].file_size;
        lemma_sum_take_unfold(s, 1);
        assert(s.drop_first().take(0) =~= Seq::<RecordModel>::empty());
        if i == 1 {
            if sum_sizes(s.take(1)) >= deficit {
                assert(d2 <= 0);
            } else {
                assert(s.len() == 1);
            }
            assert(victim_count(s.drop_first(), d2) == 0);
        } else {
            assert(sum_sizes(s.take(1)) < deficit);
            assert(d2 > 0);
            assert forall|j: int| 0 <= j < i - 1 implies sum_sizes(
                #[trigger] s.drop_first().take(j),
            ) < d2 by {
                if j == 0 {
                    assert(s.drop_first().take(0) =~= Seq::<RecordModel>::empty());
                } else {
                    lemma_sum_take_unfold(s, j + 1);
                    assert(sum_sizes(s.take(j + 1)) < deficit);
                }
            }
            if sum_sizes(s.take(i)) >= deficit {
                lemma_sum_take_unfold(s, i);
            }
            lemma_victim_count_eq(s.drop_first(), d2, i - 1);
        }
    }
}

/// Law: when eviction does not take everything, what remains of the
/// oldest-first listing fits the quota.
pub proof fn lemma_retention_meets_quota(s: Seq<RecordModel>, quota: int)
    requires
        0 <= quota,
        sum_sizes(s) > quota,
    ensures
        ({
            let k = victim_count(s, sum_sizes(s) - quota);
            &&& 0 <= k <= s.len()
            &&& k < s.len() ==> sum_sizes(s.skip(k)) <= quota
        }),
{
    lemma_victim_count_spec(s, sum_sizes(s) - quota);
    let k = victim_count(s, sum_sizes(s) - quota);
    if k < s.len() {
        lemma_sum_split(s, k);
    }
}

// ---------------------------------------------------------------------------
// Permutation invariance of totals
// ---------------------------------------------------------------------------

/// Removing a row takes its size out of the total.
proof fn lemma_sum_remove(s: Seq<RecordModel>, j: int)
    requires
        0 <= j < s.len(),
    ensures
        sum_sizes(s.remove(j)) == sum_sizes(s) - s[j].file_size,
{
    lemma_sum_split(s, j);
    lemma_sum_first_split(s.skip(j));
    assert(s.skip(j)[0] == s[j]);
    assert(s.skip(j).drop_first() =~= s.skip(j + 1));
    lemma_sum_split(s.remove(j), j);
    assert(s.remove(j).take(j) =~= s.take(j));
    assert(s.remove(j).skip(j) =~= s.skip(j + 1));
}

/// Rearranging rows never changes the total.
proof fn lemma_sum_permutation(s1: Seq<RecordModel>, s2: Seq<RecordModel>)
    requires
        s1.to_multiset() == s2.to_multiset(),
    ensures
        sum_sizes(s1) == sum_sizes(s2),
    decreases s1.len(),
{
    broadcast use vstd::seq_lib::group_to_multiset_ensures;
    broadcast use vstd::multiset::group_multiset_axioms;

    if s1.len() == 0 {
        assert(s2.to_multiset().len() == 0);
    } else {
        let e = s1.last();
        assert(s1.contains(e));
        assert(s2.to_multiset().count(e) > 0);
        assert(s2.contains(e));
        let j = choose|j: int| 0 <= j < s2.len() && s2[j] == e;
        assert(s1.drop_last().push(e) =~= s1);
        assert(s1.drop_last().push(e).to_multiset() == s1.drop_last().to_multiset().insert(e));
        vstd::seq_lib::to_multiset_remove(s2, j);
        assert(s1.drop_last().to_multiset() =~= s2.remove(j).to_multiset());
        lemma_sum_permutation(s1.drop_last(), s2.remove(j));
        lemma_sum_remove(s2, j);
    }
}

/// Law: any two active listings of the same catalog state carry the same
/// total size, so "within quota" is a property of the state alone.
pub proof fn lemma_listing_sum_unique(
    m: Map<Seq<char>, RecordModel>,
    s1: Seq<RecordModel>,
    s2: Seq<RecordModel>,
)
    requires
        active_listing(m, s1),
        active_listing(m, s2),
    ensures
        sum_sizes(s1) == sum_sizes(s2),
{
    broadcast use vstd::seq_lib::group_to_multiset_ensures;
    broadcast use vstd::multiset::group_multiset_axioms;

    assert forall|i: int, j: int|
        0 <= i < s1.len() && 0 <= j < s1.len() && i != j implies s1[i] != s1[j] by {
        if i < j {
            assert(s1[i].file_path != s1[j].file_path);
        } else {
            assert(s1[j].file_path != s1[i].file_path);
        }
    }
    assert(s1.no_duplicates());
    s1.lemma_multiset_has_no_duplicates();
    assert forall|i: int, j: int|
        0 <= i < s2.len() && 0 <= j < s2.len() && i != j implies s2[i] != s2[j] by {
        if i < j {
            assert(s2[i].file_path != s2[j].file_path);
        } else {
            assert(s2[j].file_path != s2[i].file_path);
        }
    }
    assert(s2.no_duplicates());
    s2.lemma_multiset_has_no_duplicates();
    assert forall|e: RecordModel| s1.to_multiset().contains(e) implies s2.to_multiset().contains(
        e,
    ) by {
        assert(s1.contains(e));
        let i = choose|i: int| 0 <= i < s1.len() && s1[i] == e;
        assert(m.dom().contains(e.file_path) && m[e.file_path] == e && !e.deleted);
        let t = choose|t: int| 0 <= t < s2.len() && s2[t].file_path == e.file_path;
        assert(s2[t] == e);
        assert(s2.contains(e));
    }
    assert forall|e: RecordModel| s2.to_multiset().contains(e) implies s1.to_multiset().contains(
        e,
    ) by {
        assert(s2.contains(e));
        let i = choose|i: int| 0 <= i < s2.len() && s2[i] == e;
        assert(m.dom().contains(e.file_path) && m[e.file_path] == e && !e.deleted);
        let t = choose|t: int| 0 <= t < s1.len() && s1[t].file_path == e.file_path;
        assert(s1[t] == e);
        assert(s1.contains(e));
    }
    assert forall|e: RecordModel| #[trigger] s1.to_multiset().count(e) == s2.to_multiset().count(
        e,
    ) by {
        if s1.to_multiset().count(e) > 0 {
            assert(s1.to_multiset().contains(e));
            assert(s2.to_multiset().contains(e));
        } else {
            assert(!s1.to_multiset().contains(e));
            if s2.to_multiset().count(e) > 0 {
                assert(s2.to_multiset().contains(e));
                assert(s1.to_multiset().contains(e));
            }
        }
    }
    assert(s1.to_multiset() =~= s2.to_multiset());
    lemma_sum_permutation(s1, s2);
}

// ---------------------------------------------------------------------------
// Executable retention
// ---------------------------------------------------------------------------

/// The total byte size of the given recordings.
pub fn total_size(records: &Vec<VideoRecording>) -> (t: u128)
    ensures
        t == sum_sizes(views_of(records@)),
{
    let ghost s = views_of(records@);
    let mut acc: u128 = 0;
    let mut i: usize = 0;
    proof {
        assert(s.take(0) =~= Seq::<RecordModel>::empty());
    }
    while i < records.len()
        invariant
            0 <= i <= records.len(),
            s == views_of(records@),
            s.len() == records@.len(),
            acc == sum_sizes(s.take(i as int)),
        decreases records.len() - i,
    {
        proof {
            lemma_sum_nonneg(s.take(i as int));
            lemma_sum_bound(s.take(i as int));
            assert((i as int) * 0xffff_ffff_ffff_ffff + 0xffff_ffff_ffff_ffff
                < 0x1_0000_0000_0000_0000_0000_0000_0000_0000) by (nonlinear_arith)
                requires
                    0 <= (i as int),
                    (i as int) < 0x1_0000_0000_0000_0000,
            ;
            assert(s.take(i as int + 1).drop_last() =~= s.take(i as int));
            assert(s.take(i as int + 1).last() == s[i as int]);
        }
        acc = acc + (records[i].file_size as u128);
        i += 1;
    }
    proof {
        assert(s.take(records@.len() as int) =~= s);
    }
    acc
}

/// Selects the eviction victims: when the total size of `records` exceeds
/// the quota, walks them in the given (oldest-first) order accumulating
/// victims and stops with the recording that brings the remaining deficit
/// to zero or below; when even all of them cannot cover the deficit, all
/// become victims.  Returns `None` when the total is within the quota.
pub fn select_victims(records: &Vec<VideoRecording>, quota_bytes: u64) -> (r: Option<
    Vec<VideoRecording>,
>)
    ensures
        ({
            let s = views_of(records@);
            let total = sum_sizes(s);
            &&& (r is None <==> total <= quota_bytes)
            &&& (r matches Some(v) ==> views_of(v@) == s.take(
                victim_count(s, total - quota_bytes),
            ))
        }),
{
    let ghost s = views_of(records@);
    let total = total_size(records);
    if total <= quota_bytes as u128 {
        return None;
    }
    let ghost deficit = sum_sizes(s) - quota_bytes;
    let mut remaining: u128 = total - (quota_bytes as u128);
    let mut victims: Vec<VideoRecording> = Vec::new();
    let mut i: usize = 0;
    proof {
        assert(s.take(0) =~= Seq::<RecordModel>::empty());
        assert(views_of(victims@) =~= Seq::<RecordModel>::empty());
    }
    while i < records.len() && remaining > 0
        invariant
            0 <= i <= records.len(),
            s == views_of(records@),
            s.len() == records@.len(),
            deficit == sum_sizes(s) - quota_bytes,
            deficit > 0,
            views_of(victims@) == s.take(i as int),
            remaining as int == (if deficit - sum_sizes(s.take(i as int)) >= 0 {
                deficit - sum_sizes(s.take(i as int))
            } else {
                0
            }),
            forall|j: int| 0 <= j < i ==> sum_sizes(#[trigger] s.take(j)) < deficit,
        decreases records.len() - i,
    {
        let rec = records[i].clone();
        let size = rec.file_size as u128;
        proof {
            assert(s.take(i as int + 1).drop_last() =~= s.take(i as int));
            assert(s.take(i as int + 1).last() == s[i as int]);
            lemma_sum_nonneg(s.take(i as int));
        }
        if size >= remaining {
            remaining = 0;
        } else {
            remaining = remaining - size;
        }
        victims.push(rec);
        proof {
            assert(views_of(victims@) =~= s.take(i as int + 1));
        }
        i += 1;
    }
    proof {
        lemma_victim_count_eq(s, deficit, i as int);
    }
    Some(victims)
}

/// Enforces the storage quota against the catalog.
///
/// Reads the active recordings oldest first and compares their total size
/// with `quota_bytes`.  Within quota, nothing is touched.  In dry-run mode
/// the would-be victims are only reported and the catalog is never
/// changed, whatever else happens.  Otherwise every victim row is flagged
/// deleted, all inside one transaction, so the catalog shows either no
/// eviction or the whole one: on a storage fault midway the open
/// transaction is rolled back and a `Storage` fault reported, with the
/// rows as they were at the call — no mark of a failed run survives, and
/// every row keeps its fields, its place, and a `deleted` flag that only
/// ever moves from false to true.  Only when that rollback itself fails
/// is the state unconfirmed, reported as `Unsettled` with nothing claimed.
/// The physical files are the caller's charge:
/// the caller removes each victim's file — guided by a dry-run pass over
/// the same catalog state — before committing the marks with a wet run, and
/// accepts that a failure in between leaves files gone but rows still
/// active, to be reconciled by a later scan.
pub fn enforce_quota(conn: &mut rusqlite::Connection, quota_bytes: u64, dry_run: bool) -> (r:
    Result<QuotaStatus, CatalogError>)
    requires
        catalog_columns(*old(conn)) == current_columns(),
    ensures
        dry_run ==> catalog_rows(*final(conn)) == catalog_rows(*old(conn)) && catalog_columns(
            *final(conn),
        ) == catalog_columns(*old(conn)),
        r matches Err(CatalogError::Storage(_)) ==> catalog_rows(*final(conn)) == catalog_rows(
            *old(conn),
        ),
        r matches Ok(st) ==> ((st is WithinQuota) <==> (forall|s: Seq<RecordModel>|
            #[trigger] active_listing(catalog_rows(*old(conn)), s) ==> sum_sizes(s)
                <= quota_bytes)),
        r matches Ok(st) ==> match st {
            QuotaStatus::WithinQuota => catalog_rows(*final(conn)) == catalog_rows(*old(conn))
                && catalog_columns(*final(conn)) == catalog_columns(*old(conn)) && exists|
                s: Seq<RecordModel>,
            |
                #[trigger] active_listing(catalog_rows(*old(conn)), s) && sum_sizes(s)
                    <= quota_bytes,
            QuotaStatus::WouldDelete(v) => dry_run && exists|s: Seq<RecordModel>|
                #[trigger] active_listing(catalog_rows(*old(conn)), s) && eviction_plan(
                    s,
                    quota_bytes as int,
                    views_of(v@),
                ),
            QuotaStatus::Deleted(v) => !dry_run && catalog_columns(*final(conn))
                == catalog_columns(*old(conn)) && catalog_rows(*final(conn)) == mark_victims(
                catalog_rows(*old(conn)),
                views_of(v@),
                v@.len() as int,
            ) && exists|s: Seq<RecordModel>|
                #[trigger] active_listing(catalog_rows(*old(conn)), s) && eviction_plan(
                    s,
                    quota_bytes as int,
                    views_of(v@),
                ),
        },
{
    let records = match get_all_non_deleted_recordings(conn) {
        Ok(v) => v,
        Err(e) => { return Err(e) },
    };
    let ghost m0 = catalog_rows(*old(conn));
    let ghost lv = views_of(records@);
    let victims = match select_victims(&records, quota_bytes) {
        None => {
            proof {
                assert forall|s2: Seq<RecordModel>|
                    #[trigger] active_listing(m0, s2) implies sum_sizes(s2) <= quota_bytes by {
                    lemma_listing_sum_unique(m0, lv, s2);
                }
            }
            return Ok(QuotaStatus::WithinQuota);
        },
        Some(v) => v,
    };
    proof {
        lemma_victim_count_spec(lv, sum_sizes(lv) - quota_bytes);
        assert(eviction_plan(lv, quota_bytes as int, views_of(victims@)));
        // the computed listing is over quota, so no listing fits it
        assert(active_listing(m0, lv) && sum_sizes(lv) > quota_bytes);
    }
    if dry_run {
        return Ok(QuotaStatus::WouldDelete(victims));
    }
    match tx_begin(conn) {
        Ok(_) => (),
        Err(e) => { return Err(CatalogError::Storage(crate::db::storage_error_text(&e))) },
    }
    let ghost vv = views_of(victims@);
    let mut i: usize = 0;
    while i < victims.len()
        invariant
            0 <= i <= victims.len(),
            !dry_run,
            vv == views_of(victims@),
            vv.len() == victims@.len(),
            catalog_columns(*conn) == current_columns(),
            catalog_rows(*conn) == mark_victims(m0, vv, i as int),
            crate::db::catalog_tx_base(*conn) == m0,
            m0 == catalog_rows(*old(conn)),
        decreases victims.len() - i,
    {
        match mark_as_deleted(conn, victims[i].file_path.as_str()) {
            Ok(_) => (),
            Err(e) => {
                match tx_rollback(conn) {
                    Ok(_) => { return Err(e) },
                    Err(e2) => {
                        return Err(
                            CatalogError::Unsettled(crate::db::storage_error_text(&e2)),
                        );
                    },
                }
            },
        }
        i += 1;
    }
    match tx_commit(conn) {
        Ok(_) => (),
        Err(e) => {
            match tx_rollback(conn) {
                Ok(_) => {
                    return Err(CatalogError::Storage(crate::db::storage_error_text(&e)));
                },
                Err(e2) => {
                    return Err(CatalogError::Unsettled(crate::db::storage_error_text(&e2)));
                },
            }
        },
    }
    Ok(QuotaStatus::Deleted(victims))
}

/// Runs one maintenance pass: parses the quota string and enforces the
/// quota.  An unparseable quota is rejected before any catalog work
/// begins.
pub fn run_maintenance(conn: &mut rusqlite::Connection, quota_str: &str, dry_run: bool) -> (r:
    Result<QuotaStatus, MaintenanceError>)
    requires
        catalog_columns(*old(conn)) == current_columns(),
    ensures
        parsed_quota(quota_str@) is None <==> r matches Err(MaintenanceError::BadQuota),
        r matches Err(MaintenanceError::BadQuota) ==> catalog_rows(*final(conn)) == catalog_rows(
            *old(conn),
        ),
        r matches Err(MaintenanceError::Storage(_)) ==> catalog_rows(*final(conn))
            == catalog_rows(*old(conn)),
        dry_run ==> catalog_rows(*final(conn)) == catalog_rows(*old(conn)),
        r matches Ok(st) ==> ((st is WithinQuota) <==> (forall|s: Seq<RecordModel>|
            #[trigger] active_listing(catalog_rows(*old(conn)), s) ==> sum_sizes(s)
                <= parsed_quota(quota_str@).unwrap())),
        r matches Ok(st) ==> match st {
            QuotaStatus::WithinQuota => catalog_rows(*final(conn)) == catalog_rows(*old(conn))
                && exists|s: Seq<RecordModel>|
                #[trigger] active_listing(catalog_rows(*old(conn)), s) && sum_sizes(s)
                    <= parsed_quota(quota_str@).unwrap(),
            QuotaStatus::WouldDelete(v) => dry_run && exists|s: Seq<RecordModel>|
                #[trigger] active_listing(catalog_rows(*old(conn)), s) && eviction_plan(
                    s,
                    parsed_quota(quota_str@).unwrap() as int,
                    views_of(v@),
                ),
            QuotaStatus::Deleted(v) => !dry_run && catalog_rows(*final(conn)) == mark_victims(
                catalog_rows(*old(conn)),
                views_of(v@),
                v@.len() as int,
            ) && exists|s: Seq<RecordModel>|
                #[trigger] active_listing(catalog_rows(*old(conn)), s) && eviction_plan(
                    s,
                    parsed_quota(quota_str@).unwrap() as int,
                    views_of(v@),
                ),
        },
{
    let quota = match parse_byte_quota(quota_str) {
        Some(q) => q,
        None => { return Err(MaintenanceError::BadQuota) },
    };
    match enforce_quota(conn, quota, dry_run) {
        Ok(st) => Ok(st),
        Err(CatalogError::Storage(msg)) => Err(MaintenanceError::Storage(msg)),
        Err(CatalogError::Unsettled(msg)) => Err(MaintenanceError::Unsettled(msg)),
    }
}

} // verus!

