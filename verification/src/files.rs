use vstd::prelude::*;

use crate::text::chars_of;

verus! {

broadcast use vstd::string::group_string_axioms;

/// Upload lifecycle state of a file row.
#[derive(Debug, Clone, Copy, PartialEq, Eq)]
pub enum FileState {
    Pending,
    Complete,
    Expired,
}

/// The stored name of each file state.
pub open spec fn file_state_name(state: FileState) -> Seq<char> {
    match state {
        FileState::Pending => "pending"@,
        FileState::Complete => "complete"@,
        FileState::Expired => "expired"@,
    }
}

/// The state a stored name denotes: unknown names read as `Pending`.
pub open spec fn file_state_from_name(name: Seq<char>) -> FileState {
    if name == "complete"@ {
        FileState::Complete
    } else if name == "expired"@ {
        FileState::Expired
    } else {
        FileState::Pending
    }
}

impl FileState {
    pub fn as_str(&self) -> (r: &'static str)
        ensures
            r@ == file_state_name(*self),
    {
        match self {
            FileState::Pending => "pending",
            FileState::Complete => "complete",
            FileState::Expired => "expired",
        }
    }

    pub fn is_pending(&self) -> (r: bool)
        ensures
            r == (*self == FileState::Pending),
    {
        match self {
            FileState::Pending => true,
            _ => false,
        }
    }
}

/// Whether `s` spells exactly the literal `lit`.
pub fn text_equals(s: &str, lit: &str) -> (r: bool)
    ensures
        r == (s@ == lit@),
{
    let a = chars_of(s);
    let b = chars_of(lit);
    if a.len() != b.len() {
        return false;
    }
    let n = a.len();
    for i in 0..n
        invariant
            n == a@.len() == b@.len(),
            a@ == s@,
            b@ == lit@,
            forall|k: int| 0 <= k < i ==> a@[k] == b@[k],
    {
        if a[i] != b[i] {
            return false;
        }
    }
    assert(a@ =~= b@);
    true
}

impl From<String> for FileState {
    fn from(value: String) -> (r: FileState) {
        if text_equals(value.as_str(), "complete") {
            FileState::Complete
        } else if text_equals(value.as_str(), "expired") {
            FileState::Expired
        } else {
            FileState::Pending
        }
    }
}

impl vstd::std_specs::convert::FromSpecImpl<String> for FileState {
    open spec fn obeys_from_spec() -> bool {
        true
    }

    open spec fn from_spec(v: String) -> FileState {
        file_state_from_name(v@)
    }
}

/// Whether a search hit is owned by the caller or shared with them.
#[derive(Debug, Clone, Copy, PartialEq, Eq)]
pub enum SearchAccess {
    Owned,
    Shared,
}

pub open spec fn search_access_name(access: SearchAccess) -> Seq<char> {
    match access {
        SearchAccess::Owned => "owned"@,
        SearchAccess::Shared => "shared"@,
    }
}

/// The access a stored name denotes: anything but `shared` reads as `Owned`.
pub open spec fn search_access_from_name(name: Seq<char>) -> SearchAccess {
    if name == "shared"@ {
        SearchAccess::Shared
    } else {
        SearchAccess::Owned
    }
}

impl SearchAccess {
    pub fn as_str(&self) -> (r: &'static str)
        ensures
            r@ == search_access_name(*self),
    {
        match self {
            SearchAccess::Owned => "owned",
            SearchAccess::Shared => "shared",
        }
    }

    /// Reads the access column of a search row.
    pub fn from_name(name: &str) -> (r: SearchAccess)
        ensures
            r == search_access_from_name(name@),
    {
        if text_equals(name, "shared") {
            SearchAccess::Shared
        } else {
            SearchAccess::Owned
        }
    }
}

/// Kind of entity a change-feed entry is about.
#[derive(Debug, Clone, Copy, PartialEq, Eq)]
pub enum ChangeEntityType {
    File,
    Folder,
}

pub open spec fn change_entity_type_name(t: ChangeEntityType) -> Seq<char> {
    match t {
        ChangeEntityType::File => "file"@,
        ChangeEntityType::Folder => "folder"@,
    }
}

pub open spec fn change_entity_type_from_name(name: Seq<char>) -> ChangeEntityType {
    if name == "folder"@ {
        ChangeEntityType::Folder
    } else {
        ChangeEntityType::File
    }
}

impl ChangeEntityType {
    pub fn as_str(&self) -> (r: &'static str)
        ensures
            r@ == change_entity_type_name(*self),
    {
        match self {
            ChangeEntityType::File => "file",
            ChangeEntityType::Folder => "folder",
        }
    }
}

impl From<String> for ChangeEntityType {
    fn from(value: String) -> (r: ChangeEntityType) {
        if text_equals(value.as_str(), "folder") {
            ChangeEntityType::Folder
        } else {
            ChangeEntityType::File
        }
    }
}

impl vstd::std_specs::convert::FromSpecImpl<String> for ChangeEntityType {
    open spec fn obeys_from_spec() -> bool {
        true
    }

    open spec fn from_spec(v: String) -> ChangeEntityType {
        change_entity_type_from_name(v@)
    }
}

/// Operation a change-feed entry records.
#[derive(Debug, Clone, Copy, PartialEq, Eq)]
pub enum ChangeOp {
    Upsert,
    Delete,
}

pub open spec fn change_op_name(op: ChangeOp) -> Seq<char> {
    match op {
        ChangeOp::Upsert => "upsert"@,
        ChangeOp::Delete => "delete"@,
    }
}

pub open spec fn change_op_from_name(name: Seq<char>) -> ChangeOp {
    if name == "delete"@ {
        ChangeOp::Delete
    } else {
        ChangeOp::Upsert
    }
}

impl ChangeOp {
    pub fn as_str(&self) -> (r: &'static str)
        ensures
            r@ == change_op_name(*self),
    {
        match self {
            ChangeOp::Upsert => "upsert",
            ChangeOp::Delete => "delete",
        }
    }
}

impl From<String> for ChangeOp {
    fn from(value: String) -> (r: ChangeOp) {
        if text_equals(value.as_str(), "delete") {
            ChangeOp::Delete
        } else {
            ChangeOp::Upsert
        }
    }
}

impl vstd::std_specs::convert::FromSpecImpl<String> for ChangeOp {
    open spec fn obeys_from_spec() -> bool {
        true
    }

    open spec fn from_spec(v: String) -> ChangeOp {
        change_op_from_name(v@)
    }
}


/// Reading back the stored name of a file state gives the same state.
pub proof fn lemma_file_state_name_round_trip(state: FileState)
    ensures
        file_state_from_name(file_state_name(state)) == state,
{
    reveal_strlit("pending");
    reveal_strlit("complete");
    reveal_strlit("expired");
    assert("pending"@[0] != "complete"@[0]);
    assert("pending"@[0] != "expired"@[0]);
    assert("complete"@[0] != "expired"@[0]);
}

/// Reading back the name of a search access gives the same access.
pub proof fn lemma_search_access_name_round_trip(access: SearchAccess)
    ensures
        search_access_from_name(search_access_name(access)) == access,
{
    reveal_strlit("owned");
    reveal_strlit("shared");
    assert("owned"@[0] != "shared"@[0]);
}

/// Reading back the name of a change entity type gives the same type.
pub proof fn lemma_change_entity_type_name_round_trip(t: ChangeEntityType)
    ensures
        change_entity_type_from_name(change_entity_type_name(t)) == t,
{
    reveal_strlit("file");
    reveal_strlit("folder");
    assert("file"@[1] != "folder"@[1]);
}

/// Reading back the name of a change operation gives the same operation.
pub proof fn lemma_change_op_name_round_trip(op: ChangeOp)
    ensures
        change_op_from_name(change_op_name(op)) == op,
{
    reveal_strlit("upsert");
    reveal_strlit("delete");
    assert("upsert"@[0] != "delete"@[0]);
}

/// One confirmed part of a resumable upload.
#[derive(Debug, Clone, PartialEq, Eq)]
pub struct UploadPart {
    pub part_number: i32,
    pub size_bytes: i64,
    pub etag: String,
}

/// Metadata resolved from a valid public share link.
#[derive(Debug, Clone, PartialEq, Eq)]
pub struct PublicShareTarget {
    pub filename: String,
    pub size_bytes: i64,
    pub content_type: String,
    pub object_key: String,
}

/// What a `HEAD` on a stored object reports.
#[derive(Debug, Clone, Copy, PartialEq, Eq)]
pub struct ObjectMetadata {
    pub content_length: i64,
}

/// A part handed to object storage when a multipart upload is completed.
#[derive(Debug, Clone, PartialEq, Eq)]
pub struct CompletedUploadPart {
    pub part_number: i32,
    pub etag: String,
}

/// An object as listed by object storage. `last_modified` counts
/// microseconds since the Unix epoch.
#[derive(Debug, Clone, PartialEq, Eq)]
pub struct StoredObject {
    pub key: String,
    pub last_modified: i64,
    pub size_bytes: i64,
}

impl StoredObject {
    /// An identical copy.
    pub fn duplicate(&self) -> (r: StoredObject)
        ensures
            r == *self,
    {
        StoredObject {
            key: self.key.clone(),
            last_modified: self.last_modified,
            size_bytes: self.size_bytes,
        }
    }
}

/// A file row looked up for completing a single-shot upload. Identifiers are
/// the 128-bit values of UUIDs.
#[derive(Debug, Clone, PartialEq, Eq)]
pub struct PendingFile {
    pub id: u128,
    pub size_bytes: i64,
    pub object_key: String,
    pub state: FileState,
}

/// A resumable (multipart) upload with the parts recorded so far, ordered by
/// part number. Identifiers are the 128-bit values of UUIDs; timestamps count
/// microseconds since the Unix epoch.
#[derive(Debug, Clone)]
pub struct ResumableUploadSession {
    pub file_id: u128,
    pub owner_id: u128,
    pub filename: String,
    pub parent_folder_id: Option<u128>,
    pub content_type: String,
    pub size_bytes: i64,
    pub checksum_sha256: Option<String>,
    pub object_key: String,
    pub multipart_upload_id: String,
    pub part_size_bytes: i64,
    pub state: FileState,
    pub upload_expires_at: i64,
    pub created_at: i64,
    pub updated_at: i64,
    pub completed_at: Option<i64>,
    pub parts: Vec<UploadPart>,
}


/// A completed or pending file as listed in the drive. Identifiers are the
/// 128-bit values of UUIDs; timestamps count microseconds since the Unix
/// epoch.
#[derive(Debug, Clone)]
pub struct DriveFile {
    pub id: u128,
    pub filename: String,
    pub parent_folder_id: Option<u128>,
    pub content_type: String,
    pub size_bytes: i64,
    pub checksum_sha256: Option<String>,
    pub object_key: String,
    pub state: FileState,
    pub created_at: i64,
    pub updated_at: i64,
    pub completed_at: Option<i64>,
    pub deleted_at: Option<i64>,
}

/// A folder of the drive tree.
#[derive(Debug, Clone)]
pub struct Folder {
    pub id: u128,
    pub name: String,
    pub parent_folder_id: Option<u128>,
    pub created_at: i64,
    pub updated_at: i64,
    pub deleted_at: Option<i64>,
}

/// A single entry in the per-owner change feed. `file`/`folder` carry the
/// entity snapshot for `upsert` operations; both are `None` for tombstones
/// (`delete`), where only `entity_id` identifies the removed item.
#[derive(Debug, Clone)]
pub struct ChangeLogEntry {
    pub seq: i64,
    pub entity_type: ChangeEntityType,
    pub entity_id: u128,
    pub op: ChangeOp,
    pub occurred_at: i64,
    pub file: Option<DriveFile>,
    pub folder: Option<Folder>,
}

/// One folder on the way from the drive root to a folder.
#[derive(Debug, Clone)]
pub struct FolderPathEntry {
    pub id: u128,
    pub name: String,
}

/// The contents of one folder of the drive (the root when
/// `parent_folder_id` is `None`) with the path leading to it.
#[derive(Debug, Clone)]
pub struct DriveBrowse {
    pub parent_folder_id: Option<u128>,
    pub breadcrumbs: Vec<FolderPathEntry>,
    pub folders: Vec<Folder>,
    pub files: Vec<DriveFile>,
}

/// A resumable upload still waiting for parts.
#[derive(Debug, Clone)]
pub struct PendingUpload {
    pub file_id: u128,
    pub filename: String,
    pub parent_folder_id: Option<u128>,
    pub size_bytes: i64,
    pub part_size_bytes: i64,
    pub checksum_sha256: Option<String>,
    pub parts_received: i64,
    pub expires_at: i64,
}

/// An account as other users of a file see it.
#[derive(Debug, Clone)]
pub struct FileUser {
    pub id: u128,
    pub email: String,
    pub display_name: String,
}

/// A file shared with another account.
#[derive(Debug, Clone)]
pub struct FileShare {
    pub file_id: u128,
    pub grantee: FileUser,
    pub created_at: i64,
}

/// A file someone else shared with the caller, with its owner.
#[derive(Debug, Clone)]
pub struct SharedFile {
    pub file: DriveFile,
    pub owner: FileUser,
}

/// A search hit: the file, whether the caller owns it or has it shared, and
/// the owner of a shared one.
#[derive(Debug, Clone)]
pub struct SearchFileResult {
    pub file: DriveFile,
    pub access: SearchAccess,
    pub owner: Option<FileUser>,
}

/// The owner's view of a share link; it never carries the token itself.
#[derive(Debug, Clone)]
pub struct ShareLink {
    pub id: u128,
    pub file_id: u128,
    pub created_at: i64,
    pub expires_at: Option<i64>,
    pub revoked_at: Option<i64>,
}

/// A share link to store: only the hash of its token is kept.
#[derive(Debug, Clone)]
pub struct CreateShareLinkRecord {
    pub id: u128,
    pub owner_id: u128,
    pub file_id: u128,
    pub token_hash: Vec<u8>,
    pub expires_at: Option<i64>,
}

/// A resumable upload past its deadline, with what is needed to abort it.
#[derive(Debug, Clone)]
pub struct ExpiredUploadRecord {
    pub file_id: u128,
    pub object_key: String,
    pub multipart_upload_id: String,
}

/// A trashed file claimed for purging.
#[derive(Debug, Clone)]
pub struct PurgeableFile {
    pub file_id: u128,
    pub object_key: String,
    pub purge_claimed_at: i64,
}

/// A purged file and the bytes it gave back to its owner.
#[derive(Debug, Clone)]
pub struct PurgedFile {
    pub owner_id: u128,
    pub size_bytes: i64,
}

/// A folder to create.
#[derive(Debug, Clone)]
pub struct CreateFolderRecord {
    pub owner_id: u128,
    pub name: String,
    pub parent_folder_id: Option<u128>,
}

/// Changes to a file: `None` leaves a field alone; `Some(None)` moves the
/// file to the root.
#[derive(Debug, Clone)]
pub struct UpdateFileRecord {
    pub owner_id: u128,
    pub file_id: u128,
    pub filename: Option<String>,
    pub parent_folder_id: Option<Option<u128>>,
}

/// Changes to a folder, in the same way as `UpdateFileRecord`.
#[derive(Debug, Clone)]
pub struct UpdateFolderRecord {
    pub owner_id: u128,
    pub folder_id: u128,
    pub name: Option<String>,
    pub parent_folder_id: Option<Option<u128>>,
}

/// A filename search as the repository runs it.
#[derive(Debug, Clone)]
pub struct SearchFilesRecord {
    pub user_id: u128,
    pub query: String,
    pub include_deleted: bool,
    pub limit: i64,
}

} // verus!
