use vstd::prelude::*;

use crate::errors::{AppError, DomainError};
use crate::files::ChangeLogEntry;

verus! {

pub const DEFAULT_SYNC_LIMIT: i64 = 100;

pub const MIN_SYNC_LIMIT: i64 = 1;

pub const MAX_SYNC_LIMIT: i64 = 500;

/// A request for the change feed after `cursor`, at most `limit` entries.
#[derive(Debug, Clone, Copy)]
pub struct SyncChangesInput {
    pub cursor: Option<i64>,
    pub limit: Option<i64>,
}

/// One page of the change feed.
#[derive(Debug)]
pub struct SyncChangesOutput {
    pub changes: Vec<ChangeLogEntry>,
    pub next_cursor: i64,
    pub has_more: bool,
}

/// The page size a request ends up with.
pub open spec fn spec_clamp_limit(limit: Option<i64>) -> i64 {
    match limit {
        None => DEFAULT_SYNC_LIMIT,
        Some(v) => if v < MIN_SYNC_LIMIT {
            MIN_SYNC_LIMIT
        } else if v > MAX_SYNC_LIMIT {
            MAX_SYNC_LIMIT
        } else {
            v
        },
    }
}

/// Clamps a requested page size into the accepted `1..=500` window, defaulting
/// to `100` when unset. Non-positive requests clamp up to the minimum.
pub fn clamp_limit(limit: Option<i64>) -> (r: i64)
    ensures
        r == spec_clamp_limit(limit),
        MIN_SYNC_LIMIT <= r <= MAX_SYNC_LIMIT,
{
    match limit {
        None => DEFAULT_SYNC_LIMIT,
        Some(value) => {
            if value < MIN_SYNC_LIMIT {
                MIN_SYNC_LIMIT
            } else if value > MAX_SYNC_LIMIT {
                MAX_SYNC_LIMIT
            } else {
                value
            }
        },
    }
}

/// Validates the cursor: absent means "from the beginning" (`0`); a negative
/// cursor is a client error.
pub fn normalize_cursor(cursor: Option<i64>) -> (r: Result<i64, AppError>)
    ensures
        r == match cursor {
            None => Ok::<i64, AppError>(0),
            Some(c) => if c < 0 {
                Err::<i64, AppError>(
                    AppError::Domain(
                        DomainError::Validation("cursor must be greater than or equal to zero"),
                    ),
                )
            } else {
                Ok::<i64, AppError>(c)
            },
        },
{
    match cursor {
        None => Ok(0),
        Some(value) => {
            if value < 0 {
                Err(
                    AppError::Domain(
                        DomainError::Validation("cursor must be greater than or equal to zero"),
                    ),
                )
            } else {
                Ok(value)
            }
        },
    }
}

/// Where the next page starts after `changes` was read from `cursor`.
pub open spec fn spec_next_cursor(cursor: i64, changes: Seq<ChangeLogEntry>) -> i64 {
    if changes.len() == 0 {
        cursor
    } else {
        changes.last().seq
    }
}

impl SyncChangesOutput {
    /// Builds the page for `changes`, read after `cursor` with page size
    /// `limit`: the next cursor is the last entry's sequence number (or the
    /// cursor itself on an empty page), and a full page says more may follow.
    pub fn from_page(cursor: i64, limit: i64, changes: Vec<ChangeLogEntry>) -> (r: SyncChangesOutput)
        ensures
            r.changes@ == changes@,
            r.next_cursor == spec_next_cursor(cursor, changes@),
            r.has_more == ((changes@.len() as i64) == limit),
    {
        let n = changes.len();
        let has_more = n as i64 == limit;
        let next_cursor = if n == 0 {
            cursor
        } else {
            changes[n - 1].seq
        };
        SyncChangesOutput { changes, next_cursor, has_more }
    }
}

/// Paging never moves backwards: when every entry of a page lies after the
/// cursor, the next cursor is at least the cursor, and strictly after it
/// when the page is not empty.
pub proof fn lemma_next_cursor_advances(cursor: i64, changes: Seq<ChangeLogEntry>)
    requires
        forall|i: int| 0 <= i < changes.len() ==> changes[i].seq > cursor,
    ensures
        spec_next_cursor(cursor, changes) >= cursor,
        changes.len() > 0 ==> spec_next_cursor(cursor, changes) > cursor,
{
    if changes.len() > 0 {
        assert(changes[changes.len() - 1].seq > cursor);
    }
}

/// Clamping an already clamped page size changes nothing.
pub proof fn lemma_clamp_limit_idempotent(limit: Option<i64>)
    ensures
        spec_clamp_limit(Some(spec_clamp_limit(limit))) == spec_clamp_limit(limit),
{
}

/// On a page read in feed order (sequence numbers strictly increasing), the
/// next cursor is the largest sequence number on the page: every entry
/// delivered lies at or before it, so the next page, which starts after
/// it, never sends one again; and it is one of the page's own entries, so
/// nothing after the page is skipped. An empty page leaves the cursor as
/// it was.
pub proof fn lemma_next_cursor_covers_page(cursor: i64, changes: Seq<ChangeLogEntry>)
    requires
        forall|i: int, j: int| 0 <= i < j < changes.len() ==> changes[i].seq < changes[j].seq,
    ensures
        forall|i: int| 0 <= i < changes.len() ==> #[trigger] changes[i].seq <= spec_next_cursor(cursor, changes),
        changes.len() > 0 ==> exists|i: int| 0 <= i < changes.len() && #[trigger] changes[i].seq == spec_next_cursor(cursor, changes),
        changes.len() == 0 ==> spec_next_cursor(cursor, changes) == cursor,
{
    if changes.len() > 0 {
        let last = changes.len() - 1;
        assert forall|i: int| 0 <= i < changes.len() implies #[trigger] changes[i].seq <= spec_next_cursor(cursor, changes) by {
            if i < last {
                assert(changes[i].seq < changes[last].seq);
            }
        }
        assert(changes[last].seq == spec_next_cursor(cursor, changes));
    }
}

/// Page sizes: 100 when none is asked for, otherwise the size asked for
/// kept within 1 to 500.
pub proof fn lemma_clamp_limit_window(limit: Option<i64>)
    ensures
        limit is None ==> spec_clamp_limit(limit) == 100,
        1 <= spec_clamp_limit(limit) <= 500,
        match limit {
            Some(v) => (1 <= v <= 500 ==> spec_clamp_limit(limit) == v) && (v < 1 ==> spec_clamp_limit(
                limit,
            ) == 1) && (v > 500 ==> spec_clamp_limit(limit) == 500),
            None => true,
        },
{
}

} // verus!
