use vstd::prelude::*;

use crate::clock::SystemClock;
use crate::errors::StorageError;
use crate::files::{CompletedUploadPart, ObjectMetadata, StoredObject};
use crate::jobs::{key_known, same_text};
use crate::files::text_equals;
use crate::clock::MICROS_PER_SECOND;
use crate::resumable::{spec_upload_expiry, upload_expiry};
use crate::s3::{push_segments, pushed_all};
use crate::sigv4::{lemma_text_le_total, lemma_text_le_transitive, text_le, text_le_exec};
use crate::text::{i32_decimal, i32_to_text, split_on, split_text, texts};
use crate::url_text::{append_query_pair, parse_url, parsed_url, url_pair_appended};

verus! {

broadcast use {vstd::string::group_string_axioms, vstd::seq_lib::group_to_multiset_ensures};

/// A presigned URL and the instant (microseconds since the Unix epoch) it
/// stops working.
#[derive(Debug, Clone)]
pub struct PresignedUrl {
    pub url: String,
    pub expires_at: i64,
}

/// The stored object with key `key`, the latest entry winning.
pub open spec fn lookup(objects: Seq<StoredObject>, key: Seq<char>) -> Option<StoredObject>
    decreases objects.len(),
{
    if objects.len() == 0 {
        None
    } else if objects.last().key@ == key {
        Some(objects.last())
    } else {
        lookup(objects.drop_last(), key)
    }
}

/// `objects` without any entry for `key`, order kept.
pub open spec fn without_key(objects: Seq<StoredObject>, key: Seq<char>) -> Seq<StoredObject>
    decreases objects.len(),
{
    if objects.len() == 0 {
        Seq::empty()
    } else {
        let rest = without_key(objects.drop_last(), key);
        if objects.last().key@ == key {
            rest
        } else {
            rest.push(objects.last())
        }
    }
}

/// Dropping the entries of one key leaves every other key's object alone
/// and removes that key.
pub proof fn lemma_without_key_lookup(objects: Seq<StoredObject>, key: Seq<char>, other: Seq<char>)
    ensures
        lookup(without_key(objects, key), key) is None,
        other != key ==> lookup(without_key(objects, key), other) == lookup(objects, other),
    decreases objects.len(),
{
    if objects.len() > 0 {
        lemma_without_key_lookup(objects.drop_last(), key, other);
        let rest = without_key(objects.drop_last(), key);
        if objects.last().key@ != key {
            assert(rest.push(objects.last()).drop_last() =~= rest);
        }
    }
}

/// An in-memory object store for tests: objects by key, the keys whose
/// deletion fails, and a record of deletions and multipart calls.
#[derive(Debug, Default)]
pub struct FakeObjectStorage {
    objects: Vec<StoredObject>,
    multipart_uploads: Vec<(String, String)>,
    completed_multipart: Vec<(String, String, Vec<CompletedUploadPart>)>,
    aborted_multipart: Vec<(String, String)>,
    delete_failures: Vec<String>,
    deleted_objects: Vec<String>,
}

/// Copies a list of strings, text for text.
fn copy_strings(v: &Vec<String>) -> (r: Vec<String>)
    ensures
        r@ == v@,
{
    let mut out: Vec<String> = Vec::new();
    let n = v.len();
    for i in 0..n
        invariant
            n == v@.len(),
            out@ == v@.take(i as int),
    {
        out.push(v[i].clone());
        assert(out@ =~= v@.take(i + 1));
    }
    assert(v@.take(n as int) =~= v@);
    out
}

/// Copies a list of completed parts.
fn copy_parts(v: &Vec<CompletedUploadPart>) -> (r: Vec<CompletedUploadPart>)
    ensures
        r@ == v@,
{
    let mut out: Vec<CompletedUploadPart> = Vec::new();
    let n = v.len();
    for i in 0..n
        invariant
            n == v@.len(),
            out@ == v@.take(i as int),
    {
        out.push(CompletedUploadPart { part_number: v[i].part_number, etag: v[i].etag.clone() });
        assert(out@ =~= v@.take(i + 1));
    }
    assert(v@.take(n as int) =~= v@);
    out
}

impl FakeObjectStorage {
    pub closed spec fn objects_view(&self) -> Seq<StoredObject> {
        self.objects@
    }

    pub closed spec fn delete_failures_view(&self) -> Seq<String> {
        self.delete_failures@
    }

    pub closed spec fn deleted_view(&self) -> Seq<String> {
        self.deleted_objects@
    }

    pub closed spec fn completions_view(&self) -> Seq<(String, String, Vec<CompletedUploadPart>)> {
        self.completed_multipart@
    }

    pub closed spec fn aborted_view(&self) -> Seq<(String, String)> {
        self.aborted_multipart@
    }

    /// The multipart uploads started, key and upload id, in call order; a
    /// later entry for a key replaces an earlier one.
    pub closed spec fn multipart_view(&self) -> Seq<(String, String)> {
        self.multipart_uploads@
    }

    /// An empty store.
    pub fn new() -> (r: FakeObjectStorage)
        ensures
            r.objects_view().len() == 0,
            r.delete_failures_view().len() == 0,
            r.deleted_view().len() == 0,
            r.completions_view().len() == 0,
            r.aborted_view().len() == 0,
            r.multipart_view().len() == 0,
    {
        FakeObjectStorage {
            objects: Vec::new(),
            multipart_uploads: Vec::new(),
            completed_multipart: Vec::new(),
            aborted_multipart: Vec::new(),
            delete_failures: Vec::new(),
            deleted_objects: Vec::new(),
        }
    }

    /// Index of the latest entry for `key`.
    fn find(&self, key: &str) -> (r: Option<usize>)
        ensures
            r is None ==> lookup(self.objects@, key@) is None,
            r matches Some(i) ==> i < self.objects@.len() && lookup(self.objects@, key@) == Some(
                self.objects@[i as int],
            ),
    {
        let mut i = self.objects.len();
        assert(self.objects@.take(i as int) =~= self.objects@);
        while i > 0
            invariant
                i <= self.objects@.len(),
                lookup(self.objects@, key@) == lookup(self.objects@.take(i as int), key@),
            decreases i,
        {
            proof {
                assert(self.objects@.take(i as int).drop_last() =~= self.objects@.take(i - 1));
            }
            if text_equals(self.objects[i - 1].key.as_str(), key) {
                return Some(i - 1);
            }
            i = i - 1;
        }
        None
    }

    /// Whether an object with this key is stored.
    pub fn has_object(&self, object_key: &str) -> (r: bool)
        ensures
            r == (lookup(self.objects_view(), object_key@) is Some),
    {
        self.find(object_key).is_some()
    }

    /// Stores (or replaces) the object under `object_key`, last modified now.
    pub fn put_object(&mut self, object_key: &str, content_length: i64)
        ensures
            final(self).objects_view().len() > 0,
            final(self).objects_view().drop_last() == without_key(old(self).objects_view(), object_key@),
            final(self).objects_view().last().key@ == object_key@,
            final(self).objects_view().last().size_bytes == content_length,
            final(self).delete_failures_view() == old(self).delete_failures_view(),
            final(self).deleted_view() == old(self).deleted_view(),
            final(self).completions_view() == old(self).completions_view(),
            final(self).aborted_view() == old(self).aborted_view(),
            final(self).multipart_view() == old(self).multipart_view(),
    {
        let now = SystemClock.now();
        self.put_object_with_last_modified(object_key, content_length, now);
    }

    /// Stores (or replaces) the object under `object_key`.
    pub fn put_object_with_last_modified(&mut self, object_key: &str, content_length: i64, last_modified: i64)
        ensures
            final(self).objects_view().len() > 0,
            final(self).objects_view().drop_last() == without_key(old(self).objects_view(), object_key@),
            final(self).objects_view().last().key@ == object_key@,
            final(self).objects_view().last().last_modified == last_modified,
            final(self).objects_view().last().size_bytes == content_length,
            final(self).delete_failures_view() == old(self).delete_failures_view(),
            final(self).deleted_view() == old(self).deleted_view(),
            final(self).completions_view() == old(self).completions_view(),
            final(self).aborted_view() == old(self).aborted_view(),
            final(self).multipart_view() == old(self).multipart_view(),
    {
        self.remove_key(object_key);
        let key = object_key.to_string();
        let ghost before = self.objects@;
        self.objects.push(StoredObject { key, last_modified, size_bytes: content_length });
        assert(self.objects@.drop_last() =~= before);
    }

    /// Drops every entry for `object_key`.
    fn remove_key(&mut self, object_key: &str)
        ensures
            final(self).objects@ == without_key(old(self).objects@, object_key@),
            final(self).delete_failures@ == old(self).delete_failures@,
            final(self).deleted_objects@ == old(self).deleted_objects@,
            final(self).completed_multipart@ == old(self).completed_multipart@,
            final(self).aborted_multipart@ == old(self).aborted_multipart@,
            final(self).multipart_uploads@ == old(self).multipart_uploads@,
    {
        let mut kept: Vec<StoredObject> = Vec::new();
        let n = self.objects.len();
        for i in 0..n
            invariant
                n == self.objects@.len(),
                kept@ == without_key(self.objects@.take(i as int), object_key@),
        {
            proof {
                assert(self.objects@.take(i + 1).drop_last() =~= self.objects@.take(i as int));
            }
            if !text_equals(self.objects[i].key.as_str(), object_key) {
                kept.push(self.objects[i].duplicate());
            }
        }
        assert(self.objects@.take(n as int) =~= self.objects@);
        self.objects = kept;
    }

    /// Makes every later deletion of `object_key` fail.
    pub fn fail_delete(&mut self, object_key: &str)
        ensures
            key_known(final(self).delete_failures_view(), object_key@),
            forall|k: Seq<char>| k != object_key@ ==> (key_known(final(self).delete_failures_view(), k)
                <==> key_known(old(self).delete_failures_view(), k)),
            final(self).objects_view() == old(self).objects_view(),
            final(self).deleted_view() == old(self).deleted_view(),
            final(self).completions_view() == old(self).completions_view(),
            final(self).aborted_view() == old(self).aborted_view(),
            final(self).multipart_view() == old(self).multipart_view(),
    {
        let key = object_key.to_string();
        if !crate::jobs::contains_key(&self.delete_failures, &key) {
            let ghost before = self.delete_failures@;
            self.delete_failures.push(key);
            proof {
                assert(self.delete_failures@[before.len() as int]@ == object_key@);
                assert forall|k: Seq<char>| k != object_key@ implies (key_known(self.delete_failures@, k)
                    <==> key_known(before, k)) by {
                    if key_known(self.delete_failures@, k) {
                        let i = choose|i: int| 0 <= i < self.delete_failures@.len() && self.delete_failures@[i]@ == k;
                        assert(i < before.len());
                        assert(before[i]@ == k);
                    }
                    if key_known(before, k) {
                        let i = choose|i: int| 0 <= i < before.len() && before[i]@ == k;
                        assert(self.delete_failures@[i]@ == k);
                    }
                }
            }
        }
    }

    /// Keys passed to successful or not-found deletions, in call order.
    pub fn deleted_objects(&self) -> (r: Vec<String>)
        ensures
            r@ == self.deleted_view(),
    {
        copy_strings(&self.deleted_objects)
    }

    /// Every completed multipart upload: key, upload id and parts, in call
    /// order.
    pub fn multipart_completions(&self) -> (r: Vec<(String, String, Vec<CompletedUploadPart>)>)
        ensures
            r@.len() == self.completions_view().len(),
            forall|i: int| 0 <= i < r@.len() ==> r@[i].0 == self.completions_view()[i].0 && r@[i].1
                == self.completions_view()[i].1 && r@[i].2@ == self.completions_view()[i].2@,
    {
        let mut out: Vec<(String, String, Vec<CompletedUploadPart>)> = Vec::new();
        let n = self.completed_multipart.len();
        for i in 0..n
            invariant
                n == self.completed_multipart@.len(),
                out@.len() == i,
                forall|j: int| 0 <= j < i ==> out@[j].0 == self.completed_multipart@[j].0 && out@[j].1
                    == self.completed_multipart@[j].1 && out@[j].2@ == self.completed_multipart@[j].2@,
        {
            let entry = &self.completed_multipart[i];
            out.push((entry.0.clone(), entry.1.clone(), copy_parts(&entry.2)));
        }
        out
    }

    /// Size of the stored object, `NotFound` when there is none.
    pub fn head_object(&self, object_key: &str) -> (r: Result<ObjectMetadata, StorageError>)
        ensures
            match lookup(self.objects_view(), object_key@) {
                Some(o) => r == Ok::<ObjectMetadata, StorageError>(ObjectMetadata { content_length: o.size_bytes }),
                None => r == Err::<ObjectMetadata, StorageError>(StorageError::NotFound),
            },
    {
        match self.find(object_key) {
            Some(i) => Ok(ObjectMetadata { content_length: self.objects[i].size_bytes }),
            None => Err(StorageError::NotFound),
        }
    }

    /// Starts a multipart upload and records it under its key; its id is
    /// `fake-upload-<key>`.
    pub fn create_multipart_upload(&mut self, object_key: &str, content_type: &str) -> (r: Result<String, StorageError>)
        ensures
            r matches Ok(id) && id@ == "fake-upload-"@ + object_key@,
            final(self).multipart_view().len() == old(self).multipart_view().len() + 1,
            final(self).multipart_view().drop_last() == old(self).multipart_view(),
            final(self).multipart_view().last().0@ == object_key@,
            final(self).multipart_view().last().1@ == "fake-upload-"@ + object_key@,
            final(self).objects_view() == old(self).objects_view(),
            final(self).delete_failures_view() == old(self).delete_failures_view(),
            final(self).deleted_view() == old(self).deleted_view(),
            final(self).completions_view() == old(self).completions_view(),
            final(self).aborted_view() == old(self).aborted_view(),
    {
        let mut id = String::new();
        id.append("fake-upload-");
        id.append(object_key);
        let ghost before = self.multipart_uploads@;
        self.multipart_uploads.push((object_key.to_string(), id.clone()));
        assert(self.multipart_uploads@.drop_last() =~= before);
        Ok(id)
    }

    /// Records a completed multipart upload.
    pub fn complete_multipart_upload(&mut self, object_key: &str, upload_id: &str, parts: &Vec<CompletedUploadPart>) -> (r: Result<(), StorageError>)
        ensures
            r is Ok,
            final(self).completions_view().len() == old(self).completions_view().len() + 1,
            final(self).completions_view().drop_last() == old(self).completions_view(),
            final(self).completions_view().last().0@ == object_key@,
            final(self).completions_view().last().1@ == upload_id@,
            final(self).completions_view().last().2@ == parts@,
            final(self).objects_view() == old(self).objects_view(),
            final(self).delete_failures_view() == old(self).delete_failures_view(),
            final(self).deleted_view() == old(self).deleted_view(),
            final(self).aborted_view() == old(self).aborted_view(),
            final(self).multipart_view() == old(self).multipart_view(),
    {
        let ghost before = self.completed_multipart@;
        self.completed_multipart.push((object_key.to_string(), upload_id.to_string(), copy_parts(parts)));
        assert(self.completed_multipart@.drop_last() =~= before);
        Ok(())
    }

    /// Records an aborted multipart upload.
    pub fn abort_multipart_upload(&mut self, object_key: &str, upload_id: &str) -> (r: Result<(), StorageError>)
        ensures
            r is Ok,
            final(self).aborted_view().len() == old(self).aborted_view().len() + 1,
            final(self).aborted_view().drop_last() == old(self).aborted_view(),
            final(self).aborted_view().last().0@ == object_key@,
            final(self).aborted_view().last().1@ == upload_id@,
            final(self).objects_view() == old(self).objects_view(),
            final(self).delete_failures_view() == old(self).delete_failures_view(),
            final(self).deleted_view() == old(self).deleted_view(),
            final(self).completions_view() == old(self).completions_view(),
            final(self).multipart_view() == old(self).multipart_view(),
    {
        let ghost before = self.aborted_multipart@;
        self.aborted_multipart.push((object_key.to_string(), upload_id.to_string()));
        assert(self.aborted_multipart@.drop_last() =~= before);
        Ok(())
    }

    /// Deletes an object: a key marked to fail gives `Unexpected` and
    /// changes nothing; otherwise the key is recorded as deleted and the
    /// answer is `Ok` when the object existed, `NotFound` when it did not.
    pub fn delete_object(&mut self, object_key: &str) -> (r: Result<(), StorageError>)
        ensures
            key_known(old(self).delete_failures_view(), object_key@) ==> r == Err::<(), StorageError>(
                StorageError::Unexpected) && final(self).objects_view() == old(self).objects_view()
                && final(self).deleted_view() == old(self).deleted_view(),
            !key_known(old(self).delete_failures_view(), object_key@) ==> {
                &&& final(self).deleted_view().len() == old(self).deleted_view().len() + 1
                &&& final(self).deleted_view().drop_last() == old(self).deleted_view()
                &&& final(self).deleted_view().last()@ == object_key@
                &&& final(self).objects_view() == without_key(old(self).objects_view(), object_key@)
                &&& r == if lookup(old(self).objects_view(), object_key@) is Some {
                    Ok::<(), StorageError>(())
                } else {
                    Err::<(), StorageError>(StorageError::NotFound)
                }
            },
            final(self).delete_failures_view() == old(self).delete_failures_view(),
            final(self).completions_view() == old(self).completions_view(),
            final(self).aborted_view() == old(self).aborted_view(),
            final(self).multipart_view() == old(self).multipart_view(),
    {
        let key = object_key.to_string();
        if crate::jobs::contains_key(&self.delete_failures, &key) {
            return Err(StorageError::Unexpected);
        }
        let ghost before = self.deleted_objects@;
        self.deleted_objects.push(key);
        assert(self.deleted_objects@.drop_last() =~= before);
        let existed = self.find(object_key).is_some();
        self.remove_key(object_key);
        if existed {
            Ok(())
        } else {
            Err(StorageError::NotFound)
        }
    }
}

/// Reading an object back after storing it gives what was stored, and
/// storing leaves every other key's object as it was: `after` is the store
/// as `put_object_with_last_modified` leaves `before`.
pub proof fn lemma_put_then_lookup(
    before: Seq<StoredObject>,
    after: Seq<StoredObject>,
    key: Seq<char>,
    other: Seq<char>,
)
    requires
        after.len() > 0,
        after.drop_last() == without_key(before, key),
        after.last().key@ == key,
    ensures
        lookup(after, key) == Some(after.last()),
        other != key ==> lookup(after, other) == lookup(before, other),
{
    lemma_without_key_lookup(before, key, other);
}

/// After a deletion that did not fail, the object is gone and every other
/// key's object is as it was.
pub proof fn lemma_delete_then_lookup(objects: Seq<StoredObject>, key: Seq<char>, other: Seq<char>)
    ensures
        lookup(without_key(objects, key), key) is None,
        other != key ==> lookup(without_key(objects, key), other) == lookup(objects, other),
{
    lemma_without_key_lookup(objects, key, other);
}

/// Whether no two stored objects share a key.
pub open spec fn keys_distinct(objects: Seq<StoredObject>) -> bool {
    forall|i: int, j: int| 0 <= i < j < objects.len() ==> objects[i].key@ != objects[j].key@
}

proof fn lemma_without_key_shape(objects: Seq<StoredObject>, key: Seq<char>)
    ensures
        forall|i: int| #![trigger without_key(objects, key)[i]] 0 <= i < without_key(objects, key).len() ==> without_key(objects, key)[i].key@ != key
            && objects.contains(without_key(objects, key)[i]),
        keys_distinct(objects) ==> keys_distinct(without_key(objects, key)),
    decreases objects.len(),
{
    if objects.len() > 0 {
        let prefix = objects.drop_last();
        lemma_without_key_shape(prefix, key);
        let rest = without_key(prefix, key);
        let last = objects.last();
        assert forall|i: int| 0 <= i < rest.len() implies objects.contains(#[trigger] rest[i]) by {
            assert(without_key(prefix, key)[i] == rest[i]);
            assert(prefix.contains(rest[i]));
            let j = choose|j: int| 0 <= j < prefix.len() && prefix[j] == rest[i];
            assert(objects[j] == prefix[j]);
        }
        if last.key@ != key {
            let out = rest.push(last);
            assert(objects[objects.len() - 1] == last);
            if keys_distinct(objects) {
                assert forall|a: int, b: int| 0 <= a < b < out.len() implies out[a].key@ != out[b].key@ by {
                    if b == out.len() - 1 {
                        assert(without_key(prefix, key)[a] == rest[a]);
                        assert(prefix.contains(rest[a]));
                        let j = choose|j: int| 0 <= j < prefix.len() && prefix[j] == rest[a];
                        assert(objects[j] == prefix[j]);
                        assert(objects[j].key@ != objects[objects.len() - 1].key@);
                    } else {
                        assert(out[a] == rest[a] && out[b] == rest[b]);
                    }
                }
            }
        }
    }
}

/// Storing and deleting keep the store free of two objects under one key:
/// `after` is the store as a put of `key` or a deletion of `key` leaves
/// `before`.
pub proof fn lemma_writes_keep_keys_distinct(before: Seq<StoredObject>, after: Seq<StoredObject>, key: Seq<char>)
    requires
        keys_distinct(before),
        after == without_key(before, key) || (after.len() > 0 && after.drop_last() == without_key(before, key)
            && after.last().key@ == key),
    ensures
        keys_distinct(after),
{
    lemma_without_key_shape(before, key);
    if after != without_key(before, key) {
        let rest = after.drop_last();
        assert forall|a: int, b: int| 0 <= a < b < after.len() implies after[a].key@ != after[b].key@ by {
            if b == after.len() - 1 {
                assert(after[a] == rest[a]);
                assert(rest[a].key@ != key);
            } else {
                assert(after[a] == rest[a] && after[b] == rest[b]);
            }
        }
    }
}

/// Object storage that is switched off: every call fails with `Unexpected`.
#[derive(Debug, Default, Clone, Copy)]
pub struct DisabledObjectStorage;

impl DisabledObjectStorage {
    pub fn presign_put(&self, object_key: &str, content_type: &str, size_bytes: i64, ttl_seconds: i64) -> (r: Result<PresignedUrl, StorageError>)
        ensures
            r is Err && r->Err_0 == StorageError::Unexpected,
    {
        Err(StorageError::Unexpected)
    }

    pub fn presign_get(&self, object_key: &str, ttl_seconds: i64) -> (r: Result<PresignedUrl, StorageError>)
        ensures
            r is Err && r->Err_0 == StorageError::Unexpected,
    {
        Err(StorageError::Unexpected)
    }

    pub fn head_object(&self, object_key: &str) -> (r: Result<ObjectMetadata, StorageError>)
        ensures
            r == Err::<ObjectMetadata, StorageError>(StorageError::Unexpected),
    {
        Err(StorageError::Unexpected)
    }

    pub fn create_multipart_upload(&self, object_key: &str, content_type: &str) -> (r: Result<String, StorageError>)
        ensures
            r is Err && r->Err_0 == StorageError::Unexpected,
    {
        Err(StorageError::Unexpected)
    }

    pub fn presign_upload_part(&self, object_key: &str, upload_id: &str, part_number: i32, ttl_seconds: i64) -> (r: Result<PresignedUrl, StorageError>)
        ensures
            r is Err && r->Err_0 == StorageError::Unexpected,
    {
        Err(StorageError::Unexpected)
    }

    pub fn complete_multipart_upload(&self, object_key: &str, upload_id: &str, parts: &[CompletedUploadPart]) -> (r: Result<(), StorageError>)
        ensures
            r == Err::<(), StorageError>(StorageError::Unexpected),
    {
        Err(StorageError::Unexpected)
    }

    pub fn abort_multipart_upload(&self, object_key: &str, upload_id: &str) -> (r: Result<(), StorageError>)
        ensures
            r == Err::<(), StorageError>(StorageError::Unexpected),
    {
        Err(StorageError::Unexpected)
    }

    pub fn delete_object(&self, object_key: &str) -> (r: Result<(), StorageError>)
        ensures
            r == Err::<(), StorageError>(StorageError::Unexpected),
    {
        Err(StorageError::Unexpected)
    }

    pub fn list_objects(&self) -> (r: Result<Vec<StoredObject>, StorageError>)
        ensures
            r is Err && r->Err_0 == StorageError::Unexpected,
    {
        Err(StorageError::Unexpected)
    }
}

/// Whether objects are in key order.
pub open spec fn sorted_by_key(objects: Seq<StoredObject>) -> bool {
    forall|i: int, j: int| 0 <= i < j < objects.len() ==> text_le(#[trigger] objects[i].key@, #[trigger] objects[j].key@)
}

/// Inserts an object into a list kept in key order, after the objects whose
/// key is no greater than its own.
fn insert_by_key(sorted: &mut Vec<StoredObject>, object: StoredObject)
    requires
        sorted_by_key(old(sorted)@),
    ensures
        sorted_by_key(final(sorted)@),
        final(sorted)@.to_multiset() == old(sorted)@.to_multiset().insert(object),
{
    let ghost before = sorted@;
    let n = sorted.len();
    let mut j: usize = 0;
    while j < n
        invariant_except_break
            n == sorted@.len(),
            before == sorted@,
            j <= n,
            forall|i: int| 0 <= i < j ==> text_le(#[trigger] before[i].key@, object.key@),
        ensures
            n == sorted@.len(),
            before == sorted@,
            j <= n,
            forall|i: int| 0 <= i < j ==> text_le(#[trigger] before[i].key@, object.key@),
            j < n ==> text_le(object.key@, before[j as int].key@),
        decreases n - j,
    {
        if !text_le_exec(sorted[j].key.as_str(), object.key.as_str()) {
            proof {
                lemma_text_le_total(before[j as int].key@, object.key@);
            }
            break;
        }
        j = j + 1;
    }
    let ghost x = object;
    sorted.insert(j, object);
    proof {
        let after = sorted@;
        assert(after =~= before.insert(j as int, x));
        vstd::seq_lib::to_multiset_insert(before, j as int, x);
        assert forall|a: int, b: int| 0 <= a < b < after.len() implies text_le(#[trigger] after[a].key@, #[trigger] after[b].key@) by {
            if b < j {
                assert(text_le(before[a].key@, before[b].key@));
            } else if b == j {
                assert(text_le(before[a].key@, x.key@));
            } else if a < j {
                assert(text_le(before[a].key@, x.key@));
                if j < b - 1 {
                    assert(text_le(before[j as int].key@, before[b - 1].key@));
                    lemma_text_le_transitive(x.key@, before[j as int].key@, before[b - 1].key@);
                }
                lemma_text_le_transitive(before[a].key@, x.key@, before[b - 1].key@);
            } else if a == j {
                if j < b - 1 {
                    assert(text_le(before[j as int].key@, before[b - 1].key@));
                    lemma_text_le_transitive(x.key@, before[j as int].key@, before[b - 1].key@);
                }
            } else {
                assert(text_le(before[a - 1].key@, before[b - 1].key@));
            }
        }
    }
}

/// The base of every fake presigned URL.
pub open spec fn fake_base_url() -> Seq<char> {
    "http://storage.test/"@
}

/// The fake presigned URL for `method` on `object_key`: the key's
/// `/`-separated segments as the path and `method` as the only query pair.
pub open spec fn spec_fake_presigned_url(method: Seq<char>, object_key: Seq<char>) -> Option<Seq<char>> {
    match pushed_all(parsed_url(fake_base_url()), split_text(object_key, '/')) {
        Some(u) => url_pair_appended(u, "method"@, method),
        None => None,
    }
}

/// A fake presigned URL for `method` on `object_key`, valid for
/// `ttl_seconds` from the instant `now` (microseconds since the Unix epoch).
pub fn presigned_fake_url_at(method: &str, object_key: &str, ttl_seconds: i64, now: i64) -> (r: Result<PresignedUrl, StorageError>)
    requires
        i64::MIN <= ttl_seconds * MICROS_PER_SECOND <= i64::MAX,
        i64::MIN <= spec_upload_expiry(now as int, ttl_seconds as int) <= i64::MAX,
    ensures
        match spec_fake_presigned_url(method@, object_key@) {
            Some(u) => r matches Ok(p) && p.url@ == u && p.expires_at == spec_upload_expiry(now as int, ttl_seconds as int),
            None => r == Err::<PresignedUrl, StorageError>(StorageError::Unexpected),
        },
{
    let expires_at = upload_expiry(now, ttl_seconds);
    let base = match parse_url("http://storage.test/") {
        Some(u) => u,
        None => {
            proof {
                crate::s3::lemma_pushed_all_none(split_text(object_key@, '/'));
            }
            return Err(StorageError::Unexpected);
        },
    };
    let segments = split_on(object_key, '/');
    let path = match push_segments(base, &segments) {
        Ok(u) => u,
        Err(e) => {
            return Err(e);
        },
    };
    match append_query_pair(path.as_str(), "method", method) {
        Some(url) => Ok(PresignedUrl { url, expires_at }),
        None => Err(StorageError::Unexpected),
    }
}

/// A fake presigned URL for `method` on `object_key`, valid for
/// `ttl_seconds` from the instant the clock gives; an instant whose
/// deadline would not fit is refused.
pub fn presigned_fake_url(method: &str, object_key: &str, ttl_seconds: i64) -> (r: Result<PresignedUrl, StorageError>)
    ensures
        r matches Ok(p) ==> spec_fake_presigned_url(method@, object_key@) == Some(p.url@) && exists|now: i64|
            p.expires_at == spec_upload_expiry(now as int, ttl_seconds as int),
        r is Err ==> r == Err::<PresignedUrl, StorageError>(StorageError::Unexpected),
        spec_fake_presigned_url(method@, object_key@) is None ==> r is Err,
{
    let now = SystemClock.now();
    let fits = match ttl_seconds.checked_mul(MICROS_PER_SECOND) {
        Some(lifetime) => now.checked_add(lifetime).is_some(),
        None => false,
    };
    if !fits {
        return Err(StorageError::Unexpected);
    }
    presigned_fake_url_at(method, object_key, ttl_seconds, now)
}

impl FakeObjectStorage {
    /// Every stored object, in key order.
    pub fn list_objects(&self) -> (r: Result<Vec<StoredObject>, StorageError>)
        ensures
            r matches Ok(v) && sorted_by_key(v@) && v@.to_multiset() == self.objects_view().to_multiset(),
    {
        let mut sorted: Vec<StoredObject> = Vec::new();
        let n = self.objects.len();
        proof {
            assert(self.objects@.take(0) =~= Seq::<StoredObject>::empty());
        }
        for i in 0..n
            invariant
                n == self.objects@.len(),
                sorted_by_key(sorted@),
                sorted@.to_multiset() == self.objects@.take(i as int).to_multiset(),
        {
            let object = self.objects[i].duplicate();
            insert_by_key(&mut sorted, object);
            proof {
                assert(self.objects@.take(i + 1) =~= self.objects@.take(i as int).push(self.objects@[i as int]));
            }
        }
        proof {
            assert(self.objects@.take(n as int) =~= self.objects@);
        }
        Ok(sorted)
    }

    /// A fake presigned `PUT`.
    pub fn presign_put(&self, object_key: &str, content_type: &str, size_bytes: i64, ttl_seconds: i64) -> (r: Result<
        PresignedUrl,
        StorageError,
    >)
        ensures
            r matches Ok(p) ==> spec_fake_presigned_url("PUT"@, object_key@) == Some(p.url@) && exists|now: i64|
                p.expires_at == spec_upload_expiry(now as int, ttl_seconds as int),
            r is Err ==> r == Err::<PresignedUrl, StorageError>(StorageError::Unexpected),
    {
        presigned_fake_url("PUT", object_key, ttl_seconds)
    }

    /// A fake presigned `GET`.
    pub fn presign_get(&self, object_key: &str, ttl_seconds: i64) -> (r: Result<PresignedUrl, StorageError>)
        ensures
            r matches Ok(p) ==> spec_fake_presigned_url("GET"@, object_key@) == Some(p.url@) && exists|now: i64|
                p.expires_at == spec_upload_expiry(now as int, ttl_seconds as int),
            r is Err ==> r == Err::<PresignedUrl, StorageError>(StorageError::Unexpected),
    {
        presigned_fake_url("GET", object_key, ttl_seconds)
    }

    /// A fake presigned `PUT` for one part: the `PUT` URL with the upload id
    /// and part number appended.
    pub fn presign_upload_part(&self, object_key: &str, upload_id: &str, part_number: i32, ttl_seconds: i64) -> (r: Result<
        PresignedUrl,
        StorageError,
    >)
        ensures
            r matches Ok(p) ==> exists|base: Seq<char>| {
                &&& spec_fake_presigned_url("PUT"@, object_key@) == Some(base)
                &&& spec_fake_part_url(base, upload_id@, part_number) == Some(p.url@)
            } && exists|now: i64| p.expires_at == spec_upload_expiry(now as int, ttl_seconds as int),
            r is Err ==> r == Err::<PresignedUrl, StorageError>(StorageError::Unexpected),
            spec_fake_presigned_url("PUT"@, object_key@) is None ==> r is Err,
    {
        let presigned = match presigned_fake_url("PUT", object_key, ttl_seconds) {
            Ok(p) => p,
            Err(e) => {
                return Err(e);
            },
        };
        fake_part_url(presigned, upload_id, part_number)
    }
}

/// A presigned URL with `uploadId` and then `partNumber` appended as query
/// pairs, when both appends succeed.
pub open spec fn spec_fake_part_url(url: Seq<char>, upload_id: Seq<char>, part_number: i32) -> Option<Seq<char>> {
    match url_pair_appended(url, "uploadId"@, upload_id) {
        Some(w) => url_pair_appended(w, "partNumber"@, i32_decimal(part_number)),
        None => None,
    }
}

/// Turns a presigned `PUT` into the presigned upload of one part: the
/// upload id and then the part number are appended to its URL, and its
/// deadline is kept.
pub fn fake_part_url(presigned: PresignedUrl, upload_id: &str, part_number: i32) -> (r: Result<PresignedUrl, StorageError>)
    ensures
        match spec_fake_part_url(presigned.url@, upload_id@, part_number) {
            Some(u) => r matches Ok(p) && p.url@ == u && p.expires_at == presigned.expires_at,
            None => r == Err::<PresignedUrl, StorageError>(StorageError::Unexpected),
        },
{
    let with_id = match append_query_pair(presigned.url.as_str(), "uploadId", upload_id) {
        Some(u) => u,
        None => {
            return Err(StorageError::Unexpected);
        },
    };
    let number = i32_to_text(part_number);
    match append_query_pair(with_id.as_str(), "partNumber", number.as_str()) {
        Some(url) => Ok(PresignedUrl { url, expires_at: presigned.expires_at }),
        None => Err(StorageError::Unexpected),
    }
}

} // verus!
