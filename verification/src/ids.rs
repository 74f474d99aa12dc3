use vstd::prelude::*;

use uuid::Uuid;

use crate::crypto::hex_lower;

verus! {

/// The bytes of a UUID's 128-bit value, most significant first.
pub open spec fn uuid_bytes(value: u128) -> Seq<u8> {
    Seq::new(16, |i: int| ((value >> ((15 - i) * 8) as u128) & 0xff) as u8)
}

/// The hyphenated lowercase text of a UUID given by its 128-bit value, as
/// `Uuid`'s `Display` writes it: the 32 hex digits of its bytes in groups
/// of 8, 4, 4, 4 and 12 joined by `-`.
pub open spec fn uuid_text(value: u128) -> Seq<char> {
    let h = hex_lower(uuid_bytes(value));
    h.subrange(0, 8) + seq!['-'] + h.subrange(8, 12) + seq!['-'] + h.subrange(12, 16) + seq!['-']
        + h.subrange(16, 20) + seq!['-'] + h.subrange(20, 32)
}

/// `Uuid::from_u128(value).to_string()` from `uuid`: the 36-character
/// hyphenated lowercase form.
#[verifier::external_body]
pub(crate) fn uuid_to_text(value: u128) -> (r: String)
    ensures
        r@ == uuid_text(value),
        r@.len() == 36,
{
    Uuid::from_u128(value).to_string()
}

/// Hands out identifiers for new rows and objects.
#[derive(Debug, Default, Clone, Copy)]
pub struct UuidGenerator;

/// `Uuid::new_v4().as_u128()` from `uuid`: random bits with the version
/// nibble set to 4 and the variant bits set to `10`.
#[verifier::external_body]
fn random_v4() -> (r: u128)
    ensures
        (r >> 76u128) & 0xf == 4,
        (r >> 62u128) & 0x3 == 2,
{
    Uuid::new_v4().as_u128()
}

impl UuidGenerator {
    /// A fresh random (version 4) UUID.
    pub fn new_uuid(&self) -> (r: u128)
        ensures
            (r >> 76u128) & 0xf == 4,
            (r >> 62u128) & 0x3 == 2,
    {
        random_v4()
    }
}

/// Hands out a fixed sequence of identifiers, in order, for tests.
#[derive(Debug, Clone)]
pub struct SequenceIdGenerator {
    ids: Vec<u128>,
    next: usize,
}

impl SequenceIdGenerator {
    /// The identifiers not handed out yet, in the order they will come.
    pub closed spec fn remaining(&self) -> Seq<u128> {
        self.ids@.skip(self.next as int)
    }

    /// Whether the generator is well formed.
    pub closed spec fn wf(&self) -> bool {
        self.next <= self.ids@.len()
    }

    /// A generator that hands out `ids` in order.
    pub fn new(ids: Vec<u128>) -> (r: SequenceIdGenerator)
        ensures
            r.wf(),
            r.remaining() == ids@,
    {
        let r = SequenceIdGenerator { ids, next: 0 };
        assert(r.ids@.skip(0) =~= r.ids@);
        r
    }

    /// The next identifier of the sequence; the sequence must not be
    /// exhausted.
    pub fn new_uuid(&mut self) -> (r: u128)
        requires
            old(self).wf(),
            old(self).remaining().len() > 0,
        ensures
            final(self).wf(),
            r == old(self).remaining()[0],
            final(self).remaining() == old(self).remaining().drop_first(),
    {
        let n = self.ids.len();
        assert(self.next < n);
        let id = self.ids[self.next];
        self.next = self.next + 1;
        assert(self.ids@.skip(self.next as int) =~= self.ids@.skip(self.next - 1).drop_first());
        id
    }
}

/// Where a new object of `owner_id` is stored: `<owner>/<object>`, both as
/// hyphenated UUID text.
pub open spec fn spec_object_key(owner_id: u128, object_id: u128) -> Seq<char> {
    uuid_text(owner_id) + "/"@ + uuid_text(object_id)
}

/// Builds the object-storage key of a new upload.
pub fn object_key_for(owner_id: u128, object_id: u128) -> (r: String)
    ensures
        r@ == spec_object_key(owner_id, object_id),
{
    let mut key = uuid_to_text(owner_id);
    key.append("/");
    let object = uuid_to_text(object_id);
    key.append(object.as_str());
    key
}

} // verus!
