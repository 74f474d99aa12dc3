use vstd::prelude::*;

use crate::clock::{MICROS_PER_DAY, MICROS_PER_SECOND};
use crate::errors::{AppError, StorageError};
use crate::files::StoredObject;
use crate::resumable::count_true;

verus! {

broadcast use vstd::string::group_string_axioms;

/// Objects younger than this many seconds are never treated as orphans.
pub const DEFAULT_ORPHAN_MIN_AGE_SECONDS: i64 = 24 * 60 * 60;

/// Whether deleting an object succeeded for the purpose of removing its row:
/// an object that is already gone counts as deleted.
pub open spec fn delete_counts_as_done(result: Result<(), StorageError>) -> bool {
    match result {
        Ok(()) => true,
        Err(StorageError::NotFound) => true,
        Err(StorageError::Unexpected) => false,
    }
}

/// What the trash purge does with a file once the bucket answered.
#[derive(Debug, Clone, Copy, PartialEq, Eq)]
pub enum PurgeAction {
    /// The object is gone: remove the row and release its quota.
    PurgeRow,
    /// The bucket failed: give the claim back so a later run retries.
    ReleaseClaim,
}

/// Decides the purge of one file from the bucket's answer to deleting its
/// object.
pub fn purge_action(delete_result: Result<(), StorageError>) -> (r: PurgeAction)
    ensures
        r == PurgeAction::PurgeRow <==> delete_counts_as_done(delete_result),
{
    match delete_result {
        Ok(()) => PurgeAction::PurgeRow,
        Err(StorageError::NotFound) => PurgeAction::PurgeRow,
        Err(StorageError::Unexpected) => PurgeAction::ReleaseClaim,
    }
}

/// How the purge of one file ended.
#[derive(Debug, Clone, Copy, PartialEq, Eq)]
pub enum PurgeOutcome {
    /// The row was removed.
    Purged,
    /// The object was gone but another run had already taken the row.
    Skipped,
    /// The bucket failed; the row stays for a retry.
    Failed,
}

/// Outcome of one run of the trash purge.
#[derive(Debug, Clone, Copy, PartialEq, Eq)]
pub struct PurgeTrashOutput {
    pub purged_files: usize,
    pub failed_files: usize,
    pub purged_folders: usize,
}

/// How many outcomes of `s` equal `o`.
pub open spec fn count_outcome(s: Seq<PurgeOutcome>, o: PurgeOutcome) -> nat
    decreases s.len(),
{
    if s.len() == 0 {
        0
    } else {
        count_outcome(s.drop_last(), o) + if s.last() == o {
            1nat
        } else {
            0nat
        }
    }
}

proof fn lemma_count_outcome_bound(s: Seq<PurgeOutcome>, o: PurgeOutcome)
    ensures
        count_outcome(s, o) <= s.len(),
    decreases s.len(),
{
    if s.len() > 0 {
        lemma_count_outcome_bound(s.drop_last(), o);
    }
}

impl PurgeTrashOutput {
    /// Summary of a run with the given per-file outcomes and number of empty
    /// trashed folders removed.
    pub fn from_outcomes(outcomes: &Vec<PurgeOutcome>, purged_folders: usize) -> (r: PurgeTrashOutput)
        ensures
            r.purged_files == count_outcome(outcomes@, PurgeOutcome::Purged),
            r.failed_files == count_outcome(outcomes@, PurgeOutcome::Failed),
            r.purged_folders == purged_folders,
    {
        let n = outcomes.len();
        let mut purged: usize = 0;
        let mut failed: usize = 0;
        for i in 0..n
            invariant
                n == outcomes@.len(),
                purged == count_outcome(outcomes@.take(i as int), PurgeOutcome::Purged),
                failed == count_outcome(outcomes@.take(i as int), PurgeOutcome::Failed),
        {
            proof {
                assert(outcomes@.take(i + 1).drop_last() =~= outcomes@.take(i as int));
                lemma_count_outcome_bound(outcomes@.take(i as int), PurgeOutcome::Purged);
                lemma_count_outcome_bound(outcomes@.take(i as int), PurgeOutcome::Failed);
            }
            match outcomes[i] {
                PurgeOutcome::Purged => {
                    purged = purged + 1;
                },
                PurgeOutcome::Failed => {
                    failed = failed + 1;
                },
                PurgeOutcome::Skipped => {},
            }
        }
        assert(outcomes@.take(n as int) =~= outcomes@);
        PurgeTrashOutput { purged_files: purged, failed_files: failed, purged_folders }
    }
}

/// Files trashed at or before this instant are old enough to purge:
/// `now` minus the retention period, a negative period counting as none.
pub open spec fn spec_purge_cutoff(now: int, retention_days: int) -> int {
    now - (if retention_days > 0 {
        retention_days
    } else {
        0
    }) * MICROS_PER_DAY
}

/// The purge cutoff for `now` (microseconds) and a retention period in days.
pub fn purge_cutoff(now: i64, retention_days: i64) -> (r: i64)
    requires
        retention_days <= i64::MAX / MICROS_PER_DAY,
        i64::MIN <= spec_purge_cutoff(now as int, retention_days as int),
    ensures
        r == spec_purge_cutoff(now as int, retention_days as int),
{
    let days = if retention_days > 0 {
        retention_days
    } else {
        0
    };
    now - days * MICROS_PER_DAY
}

/// Objects last modified at or before this instant may be orphans: `now`
/// minus the minimum age, a negative age counting as none.
pub open spec fn spec_orphan_cutoff(now: int, min_age_seconds: int) -> int {
    now - (if min_age_seconds > 0 {
        min_age_seconds
    } else {
        0
    }) * MICROS_PER_SECOND
}

/// The orphan cutoff for `now` (microseconds) and a minimum age in seconds.
pub fn orphan_cutoff(now: i64, min_age_seconds: i64) -> (r: i64)
    requires
        min_age_seconds <= i64::MAX / MICROS_PER_SECOND,
        i64::MIN <= spec_orphan_cutoff(now as int, min_age_seconds as int),
    ensures
        r == spec_orphan_cutoff(now as int, min_age_seconds as int),
{
    let age = if min_age_seconds > 0 {
        min_age_seconds
    } else {
        0
    };
    now - age * MICROS_PER_SECOND
}

/// Whether `key` is one of `keys`.
pub open spec fn key_known(keys: Seq<String>, key: Seq<char>) -> bool {
    exists|i: int| 0 <= i < keys.len() && keys[i]@ == key
}

/// Whether an object is an orphan to delete: no file row knows its key and
/// it is old enough.
pub open spec fn is_orphan(known_keys: Seq<String>, object: StoredObject, cutoff: int) -> bool {
    !key_known(known_keys, object.key@) && object.last_modified <= cutoff
}

/// Whether two strings hold the same text.
pub fn same_text(a: &String, b: &String) -> (r: bool)
    ensures
        r == (a@ == b@),
{
    a.eq(b)
}

/// Whether `key` is one of `keys`.
pub fn contains_key(keys: &Vec<String>, key: &String) -> (r: bool)
    ensures
        r == key_known(keys@, key@),
{
    let n = keys.len();
    for i in 0..n
        invariant
            n == keys@.len(),
            forall|j: int| 0 <= j < i ==> keys@[j]@ != key@,
    {
        if same_text(&keys[i], key) {
            return true;
        }
    }
    false
}

/// The orphans among `objects`, in the order they were listed.
pub open spec fn spec_orphans(known_keys: Seq<String>, objects: Seq<StoredObject>, cutoff: int) -> Seq<
    StoredObject,
>
    decreases objects.len(),
{
    if objects.len() == 0 {
        Seq::empty()
    } else {
        let rest = spec_orphans(known_keys, objects.drop_last(), cutoff);
        if is_orphan(known_keys, objects.last(), cutoff) {
            rest.push(objects.last())
        } else {
            rest
        }
    }
}

/// Picks the objects the orphan cleanup deletes: unknown to every file row
/// and not modified after `cutoff`.
pub fn select_orphans(known_keys: &Vec<String>, objects: &Vec<StoredObject>, cutoff: i64) -> (r: Vec<
    StoredObject,
>)
    ensures
        r@ == spec_orphans(known_keys@, objects@, cutoff as int),
{
    let n = objects.len();
    let mut out: Vec<StoredObject> = Vec::new();
    for i in 0..n
        invariant
            n == objects@.len(),
            out@ == spec_orphans(known_keys@, objects@.take(i as int), cutoff as int),
    {
        proof {
            assert(objects@.take(i + 1).drop_last() =~= objects@.take(i as int));
        }
        let object = &objects[i];
        if !contains_key(known_keys, &object.key) && object.last_modified <= cutoff {
            out.push(object.duplicate());
        }
    }
    assert(objects@.take(n as int) =~= objects@);
    out
}


/// Outcome of one run of the orphan-object cleanup.
#[derive(Debug, Clone, Copy, PartialEq, Eq)]
pub struct CleanupOrphansOutput {
    pub deleted: usize,
    pub failed: usize,
    pub scanned: usize,
}

impl CleanupOrphansOutput {
    /// Summary of a run that listed `scanned` objects and tried to delete
    /// orphans with the bucket answers in `delete_results`: an object
    /// already gone counts as deleted.
    pub fn from_delete_results(scanned: usize, delete_results: &Vec<Result<(), StorageError>>) -> (r:
        CleanupOrphansOutput)
        ensures
            r.scanned == scanned,
            r.deleted == count_true(delete_results@.map_values(|d: Result<(), StorageError>| delete_counts_as_done(d))),
            r.deleted + r.failed == delete_results@.len(),
    {
        let n = delete_results.len();
        let ghost done = delete_results@.map_values(|d: Result<(), StorageError>| delete_counts_as_done(d));
        let mut deleted: usize = 0;
        let mut failed: usize = 0;
        for i in 0..n
            invariant
                n == delete_results@.len(),
                done == delete_results@.map_values(|d: Result<(), StorageError>| delete_counts_as_done(d)),
                deleted == count_true(done.take(i as int)),
                deleted + failed == i,
        {
            proof {
                assert(done.take(i + 1).drop_last() =~= done.take(i as int));
                assert(done.take(i + 1).last() == delete_counts_as_done(delete_results@[i as int]));
            }
            match delete_results[i] {
                Ok(()) | Err(StorageError::NotFound) => {
                    deleted = deleted + 1;
                },
                Err(StorageError::Unexpected) => {
                    failed = failed + 1;
                },
            }
        }
        assert(done.take(n as int) =~= done);
        CleanupOrphansOutput { deleted, failed, scanned }
    }
}

/// A user whose stored usage disagreed with the sum of their complete files.
#[derive(Debug, Clone, Copy, PartialEq, Eq)]
pub struct QuotaDivergence {
    pub owner_id: u128,
    pub previous: i64,
    pub corrected: i64,
}

/// One batch of quota reconciliation: the corrections made and the last
/// user examined, `None` when no users were left.
#[derive(Debug, Clone)]
pub struct ReconcileQuotaBatch {
    pub divergences: Vec<QuotaDivergence>,
    pub last_user_id: Option<u128>,
}

/// Every correction made by a full reconciliation run.
#[derive(Debug, Clone, PartialEq, Eq)]
pub struct ReconcileQuotaOutput {
    pub divergences: Vec<QuotaDivergence>,
}

impl ReconcileQuotaOutput {
    /// Number of users whose usage was corrected.
    pub fn corrected(&self) -> (r: usize)
        ensures
            r == self.divergences@.len(),
    {
        self.divergences.len()
    }

    /// Adds one batch's corrections and tells where the next batch starts:
    /// after the batch's last user, or nowhere when the batch was the last.
    pub fn absorb(&mut self, batch: ReconcileQuotaBatch) -> (next: Option<u128>)
        ensures
            final(self).divergences@ == old(self).divergences@ + batch.divergences@,
            next == batch.last_user_id,
    {
        let mut more = batch.divergences;
        self.divergences.append(&mut more);
        batch.last_user_id
    }
}

/// Bounds the reconciliation batch size to `1..=10000`.
pub fn clamp_reconcile_batch(batch_size: i64) -> (r: i64)
    ensures
        r == if batch_size < 1 {
            1
        } else if batch_size > 10000 {
            10000
        } else {
            batch_size
        },
{
    if batch_size < 1 {
        1
    } else if batch_size > 10000 {
        10000
    } else {
        batch_size
    }
}

/// What a manual purge makes of the bucket's answer to deleting an object:
/// an object already gone is fine, any other failure is a storage error.
pub fn manual_purge_delete_result(delete_result: Result<(), StorageError>) -> (r: Result<(), AppError>)
    ensures
        r is Ok <==> delete_counts_as_done(delete_result),
        r is Err ==> r == Err::<(), AppError>(AppError::Storage),
{
    match delete_result {
        Ok(()) => Ok(()),
        Err(StorageError::NotFound) => Ok(()),
        Err(StorageError::Unexpected) => Err(AppError::Storage),
    }
}

/// Resumable uploads expired per worker tick.
pub const EXPIRE_BATCH_LIMIT: i64 = 100;

/// Trashed files purged per worker tick.
pub const PURGE_BATCH_LIMIT: i64 = 100;

/// Owners reconciled per quota batch.
pub const RECONCILE_BATCH_SIZE: i64 = 500;

/// Seconds between worker ticks: the configured interval, at least one.
pub fn worker_interval_seconds(configured: i64) -> (r: u64)
    ensures
        r as int == if configured >= 1 { configured as int } else { 1 },
{
    if configured >= 1 {
        configured as u64
    } else {
        1
    }
}

/// The purge cutoff lies the retention period, counted in days of
/// 86 400 000 000 microseconds, before `now` (no period when it is
/// negative): a file trashed less than `retention_days` days before `now`
/// lies after the cutoff and is never purged, and one trashed longer ago
/// lies at or before it.
pub proof fn lemma_purge_cutoff_is_retention_days(now: int, retention_days: int, trashed_at: int)
    ensures
        retention_days >= 0 ==> spec_purge_cutoff(now, retention_days) == now - retention_days * 86_400_000_000,
        retention_days < 0 ==> spec_purge_cutoff(now, retention_days) == now,
        retention_days >= 0 && now - trashed_at < retention_days * 86_400_000_000 ==> trashed_at
            > spec_purge_cutoff(now, retention_days),
        retention_days >= 0 && now - trashed_at >= retention_days * 86_400_000_000 ==> trashed_at
            <= spec_purge_cutoff(now, retention_days),
{
}

/// The orphan cutoff lies the minimum age, counted in seconds of 1 000 000
/// microseconds, before `now`: an object modified less than
/// `min_age_seconds` seconds before `now` lies after it and is kept.
pub proof fn lemma_orphan_cutoff_is_min_age_seconds(now: int, min_age_seconds: int, modified_at: int)
    ensures
        min_age_seconds >= 0 ==> spec_orphan_cutoff(now, min_age_seconds) == now - min_age_seconds * 1_000_000,
        min_age_seconds < 0 ==> spec_orphan_cutoff(now, min_age_seconds) == now,
        min_age_seconds >= 0 && now - modified_at < min_age_seconds * 1_000_000 ==> modified_at
            > spec_orphan_cutoff(now, min_age_seconds),
{
}

} // verus!
