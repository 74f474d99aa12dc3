use vstd::prelude::*;

use crate::errors::RepositoryError;
use crate::files::FileState;

verus! {

/// Whether a part may be stored for a locked upload row: the upload is
/// still pending and the part holds at least one byte and no more than the
/// whole file.
pub open spec fn part_row_acceptable(state: FileState, file_size: int, part_size: int) -> bool {
    state == FileState::Pending && 0 < part_size <= file_size
}

/// Checks a part against the upload row it is stored under.
pub fn check_part_row(state: FileState, file_size: i64, part_size: i64) -> (r: Result<(), RepositoryError>)
    ensures
        r is Ok <==> part_row_acceptable(state, file_size as int, part_size as int),
        r is Err ==> r == Err::<(), RepositoryError>(RepositoryError::InvalidState),
{
    let pending = match state {
        FileState::Pending => true,
        _ => false,
    };
    if !pending || part_size <= 0 || part_size > file_size {
        Err(RepositoryError::InvalidState)
    } else {
        Ok(())
    }
}

/// Checks that a locked file row can be completed: it is still pending and
/// has the size the caller expects.
pub fn check_completable_row(state: FileState, size_bytes: i64, expected_size: i64) -> (r: Result<(), RepositoryError>)
    ensures
        r is Ok <==> state == FileState::Pending && size_bytes == expected_size,
        r is Err ==> r == Err::<(), RepositoryError>(RepositoryError::InvalidState),
{
    let pending = match state {
        FileState::Pending => true,
        _ => false,
    };
    if !pending || size_bytes != expected_size {
        Err(RepositoryError::InvalidState)
    } else {
        Ok(())
    }
}

/// Whether a folder may take `parent_folder_id` as its new parent: a folder
/// is never moved into itself nor below itself. `None` leaves the parent
/// alone and `Some(None)` moves the folder to the root.
pub open spec fn folder_move_allowed(folder_id: u128, parent_folder_id: Option<Option<u128>>, parent_is_descendant: bool) -> bool {
    match parent_folder_id {
        Some(Some(parent)) => parent != folder_id && !parent_is_descendant,
        _ => true,
    }
}

/// Checks a folder move; `parent_is_descendant` says whether the new parent
/// lies below the folder.
pub fn check_folder_move(folder_id: u128, parent_folder_id: Option<Option<u128>>, parent_is_descendant: bool) -> (r: Result<
    (),
    RepositoryError,
>)
    ensures
        r is Ok <==> folder_move_allowed(folder_id, parent_folder_id, parent_is_descendant),
        r is Err ==> r == Err::<(), RepositoryError>(RepositoryError::InvalidState),
{
    match parent_folder_id {
        Some(Some(parent)) => {
            if parent == folder_id || parent_is_descendant {
                Err(RepositoryError::InvalidState)
            } else {
                Ok(())
            }
        },
        _ => Ok(()),
    }
}

/// Whether a trashed folder tree can be restored: `parent_deleted` is
/// `None` when no such trashed tree root exists, and a tree whose parent is
/// itself in the trash waits for the parent.
pub fn check_tree_restore(parent_deleted: Option<bool>) -> (r: Result<(), RepositoryError>)
    ensures
        r == match parent_deleted {
            None => Err::<(), RepositoryError>(RepositoryError::NotFound),
            Some(true) => Err::<(), RepositoryError>(RepositoryError::InvalidState),
            Some(false) => Ok::<(), RepositoryError>(()),
        },
{
    match parent_deleted {
        None => Err(RepositoryError::NotFound),
        Some(true) => Err(RepositoryError::InvalidState),
        Some(false) => Ok(()),
    }
}

/// The outcome of a write addressed to one owned row: touching no row
/// means the row was not found.
pub fn rows_touched(rows_affected: u64) -> (r: Result<(), RepositoryError>)
    ensures
        r is Ok <==> rows_affected > 0,
        r is Err ==> r == Err::<(), RepositoryError>(RepositoryError::NotFound),
{
    if rows_affected == 0 {
        Err(RepositoryError::NotFound)
    } else {
        Ok(())
    }
}

/// Whether a row that must exist does: a missing one is not found.
pub fn require_found(exists: bool) -> (r: Result<(), RepositoryError>)
    ensures
        r is Ok <==> exists,
        r is Err ==> r == Err::<(), RepositoryError>(RepositoryError::NotFound),
{
    if exists {
        Ok(())
    } else {
        Err(RepositoryError::NotFound)
    }
}

/// Moving a folder into itself is always refused, whatever else holds.
pub proof fn lemma_folder_never_moves_into_itself(folder_id: u128, parent_is_descendant: bool)
    ensures
        !folder_move_allowed(folder_id, Some(Some(folder_id)), parent_is_descendant),
{
}

} // verus!
