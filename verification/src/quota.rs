use vstd::prelude::*;

use crate::errors::DomainError;

verus! {

/// Whether a new file of `new_file_size` bytes fits: the projected usage
/// `storage_used + pending + new_file_size`, summed left to right without
/// leaving the `i64` range, stays within the quota.
pub open spec fn quota_allows(
    storage_used_bytes: int,
    storage_quota_bytes: int,
    pending_bytes: int,
    new_file_size: int,
) -> bool {
    let used = storage_used_bytes + pending_bytes;
    let projected = used + new_file_size;
    &&& i64::MIN <= used <= i64::MAX
    &&& i64::MIN <= projected <= i64::MAX
    &&& projected <= storage_quota_bytes
}

/// Accepts a new file exactly when it fits in the owner's quota.
pub fn ensure_quota(
    storage_used_bytes: i64,
    storage_quota_bytes: i64,
    pending_bytes: i64,
    new_file_size: i64,
) -> (r: Result<(), DomainError>)
    ensures
        r is Ok <==> quota_allows(
            storage_used_bytes as int,
            storage_quota_bytes as int,
            pending_bytes as int,
            new_file_size as int,
        ),
        r is Err ==> r == Err::<(), DomainError>(DomainError::QuotaExceeded),
{
    match storage_used_bytes.checked_add(pending_bytes) {
        Some(used) => match used.checked_add(new_file_size) {
            Some(projected) => {
                if projected <= storage_quota_bytes {
                    Ok(())
                } else {
                    Err(DomainError::QuotaExceeded)
                }
            },
            None => Err(DomainError::QuotaExceeded),
        },
        None => Err(DomainError::QuotaExceeded),
    }
}

/// The most pending bytes worth counting against an owner: the quota, or
/// zero when the quota is negative.
pub fn pending_cap(storage_quota_bytes: i64) -> (r: i64)
    ensures
        r == if storage_quota_bytes >= 0 { storage_quota_bytes } else { 0 },
{
    if storage_quota_bytes >= 0 {
        storage_quota_bytes
    } else {
        0
    }
}

/// With nothing negative in play, a file that fits keeps fitting when it is
/// replaced by a smaller one.
pub proof fn lemma_quota_monotone(
    storage_used_bytes: int,
    storage_quota_bytes: int,
    pending_bytes: int,
    larger: int,
    smaller: int,
)
    requires
        0 <= storage_used_bytes,
        0 <= pending_bytes,
        0 <= smaller <= larger,
        quota_allows(storage_used_bytes, storage_quota_bytes, pending_bytes, larger),
    ensures
        quota_allows(storage_used_bytes, storage_quota_bytes, pending_bytes, smaller),
{
}

/// An accepted file never takes projected usage above the quota, and a file
/// larger than the quota by itself is refused when nothing is negative.
pub proof fn lemma_quota_bounds(
    storage_used_bytes: int,
    storage_quota_bytes: int,
    pending_bytes: int,
    new_file_size: int,
)
    requires
        0 <= storage_used_bytes,
        0 <= pending_bytes,
    ensures
        quota_allows(storage_used_bytes, storage_quota_bytes, pending_bytes, new_file_size)
            ==> storage_used_bytes + pending_bytes + new_file_size <= storage_quota_bytes,
        new_file_size > storage_quota_bytes ==> !quota_allows(
            storage_used_bytes,
            storage_quota_bytes,
            pending_bytes,
            new_file_size,
        ),
{
}

} // verus!
