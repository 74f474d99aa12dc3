use vstd::prelude::*;

use crate::clock::{MICROS_PER_SECOND};

use crate::errors::{AppError, DomainError};
use crate::files::{CompletedUploadPart, FileState, ObjectMetadata, PendingFile, ResumableUploadSession, UploadPart};
use crate::text::{trim, trim_str};

verus! {

pub const DEFAULT_RESUMABLE_PART_SIZE_BYTES: i64 = 8 * 1024 * 1024;

pub const MIN_RESUMABLE_PART_SIZE_BYTES: i64 = 5 * 1024 * 1024;

pub const MAX_MULTIPART_PARTS: i64 = 10000;

/// How long a resumable upload session accepts parts, in seconds.
pub const DEFAULT_UPLOAD_TTL_SECONDS: i64 = 24 * 60 * 60;

/// Integer division rounding toward zero, as `/` does on Rust integers.
pub open spec fn trunc_div(a: int, b: int) -> int {
    if a >= 0 {
        a / b
    } else {
        -((-a) / b)
    }
}

/// Number of parts of `part_size` bytes needed for `size` bytes.
pub open spec fn spec_part_count(size: int, part_size: int) -> int {
    trunc_div(size + part_size - 1, part_size)
}

/// Whether `part_count(size, part_size)` can be computed without overflow.
pub open spec fn part_count_computable(size: int, part_size: int) -> bool {
    part_size > 0 && size + part_size <= i64::MAX
}

/// Number of parts of `part_size_bytes` needed for `size_bytes` bytes,
/// rounding up.
pub fn part_count(size_bytes: i64, part_size_bytes: i64) -> (r: i64)
    requires
        part_count_computable(size_bytes as int, part_size_bytes as int),
    ensures
        r == spec_part_count(size_bytes as int, part_size_bytes as int),
{
    (size_bytes + part_size_bytes - 1) / part_size_bytes
}

pub open spec fn max_int(a: int, b: int) -> int {
    if a >= b {
        a
    } else {
        b
    }
}

pub open spec fn min_int(a: int, b: int) -> int {
    if a <= b {
        a
    } else {
        b
    }
}

/// Smallest part size that keeps `size` within the multipart part limit,
/// and never below the storage minimum.
pub open spec fn minimum_part_size(size: int) -> int {
    max_int(
        trunc_div(size + MAX_MULTIPART_PARTS - 1, MAX_MULTIPART_PARTS as int),
        MIN_RESUMABLE_PART_SIZE_BYTES as int,
    )
}

/// The part size a request ends up with: the requested one (or the default),
/// raised to the minimum.
pub open spec fn effective_part_size(size: int, requested: Option<i64>) -> int {
    let wanted = match requested {
        Some(p) => p as int,
        None => DEFAULT_RESUMABLE_PART_SIZE_BYTES as int,
    };
    max_int(wanted, minimum_part_size(size))
}

/// Whether `normalized_part_size` can run without overflow.
pub open spec fn part_size_computable(size: int, requested: Option<i64>) -> bool {
    &&& size + MAX_MULTIPART_PARTS <= i64::MAX
    &&& size + effective_part_size(size, requested) <= i64::MAX
}

/// The part size asked for (8 MiB by default), raised to the least size
/// that needs no more than 10 000 parts and never below 5 MiB.
fn effective_part_size_of(size_bytes: i64, requested: Option<i64>) -> (r: i64)
    requires
        size_bytes + MAX_MULTIPART_PARTS <= i64::MAX,
    ensures
        r == effective_part_size(size_bytes as int, requested),
{
    let by_limit = (size_bytes + MAX_MULTIPART_PARTS - 1) / MAX_MULTIPART_PARTS;
    let minimum = if by_limit >= MIN_RESUMABLE_PART_SIZE_BYTES {
        by_limit
    } else {
        MIN_RESUMABLE_PART_SIZE_BYTES
    };
    let wanted = match requested {
        Some(p) => p,
        None => DEFAULT_RESUMABLE_PART_SIZE_BYTES,
    };
    if wanted >= minimum {
        wanted
    } else {
        minimum
    }
}

/// Tells whether `normalized_part_size` can compute for this size and
/// request without overflow.
pub fn part_size_computable_checked(size_bytes: i64, requested: Option<i64>) -> (r: bool)
    ensures
        r == part_size_computable(size_bytes as int, requested),
{
    if size_bytes > i64::MAX - MAX_MULTIPART_PARTS {
        return false;
    }
    let part_size = effective_part_size_of(size_bytes, requested);
    size_bytes <= i64::MAX - part_size
}

/// Picks the part size of a resumable upload: the requested size (8 MiB by
/// default), raised so that no more than 10 000 parts are needed and never
/// below 5 MiB. Refused when more than 10 000 parts would still be needed.
pub fn normalized_part_size(size_bytes: i64, requested: Option<i64>) -> (r: Result<i64, DomainError>)
    requires
        part_size_computable(size_bytes as int, requested),
    ensures
        r is Ok <==> spec_part_count(size_bytes as int, effective_part_size(size_bytes as int, requested))
            <= MAX_MULTIPART_PARTS,
        r matches Ok(p) ==> p == effective_part_size(size_bytes as int, requested),
        r is Err ==> r == Err::<i64, DomainError>(DomainError::InvalidFileState),
{
    let part_size = effective_part_size_of(size_bytes, requested);
    if part_size <= 0 || part_count(size_bytes, part_size) > MAX_MULTIPART_PARTS {
        return Err(DomainError::InvalidFileState);
    }
    Ok(part_size)
}

/// For a positive size, the parts needed cover the size and the last one
/// is not empty.
pub proof fn lemma_part_count_bounds(size: int, part_size: int)
    requires
        size > 0,
        part_size > 0,
    ensures
        spec_part_count(size, part_size) >= 1,
        (spec_part_count(size, part_size) - 1) * part_size < size,
        size <= spec_part_count(size, part_size) * part_size,
{
    let n = size + part_size - 1;
    let c = n / part_size;
    assert(spec_part_count(size, part_size) == c);
    vstd::arithmetic::div_mod::lemma_fundamental_div_mod(n, part_size);
    let r = n % part_size;
    assert(n == part_size * c + r);
    assert(0 <= r < part_size);
    assert((c - 1) * part_size == c * part_size - part_size) by (nonlinear_arith);
    assert(c * part_size == part_size * c) by (nonlinear_arith);
    if c < 1 {
        assert(c <= 0);
        assert(part_size * c <= 0) by (nonlinear_arith)
            requires
                part_size > 0,
                c <= 0,
        ;
    }
}

/// A non-negative size never needs more than 10 000 parts once the part
/// size has been normalized: `normalized_part_size` never refuses it.
pub proof fn lemma_normalized_part_size_fits(size: int, requested: Option<i64>)
    requires
        size >= 0,
    ensures
        spec_part_count(size, effective_part_size(size, requested)) <= MAX_MULTIPART_PARTS,
{
    let p = effective_part_size(size, requested);
    let m = (size + 9999) / 10000;
    assert(minimum_part_size(size) >= m);
    assert(p >= m);
    assert(p >= MIN_RESUMABLE_PART_SIZE_BYTES);
    vstd::arithmetic::div_mod::lemma_fundamental_div_mod(size + 9999, 10000);
    assert(10000 * m >= size);
    assert(10000 * p >= 10000 * m) by (nonlinear_arith)
        requires
            p >= m,
    ;
    let n = size + p - 1;
    let c = n / p;
    vstd::arithmetic::div_mod::lemma_fundamental_div_mod(n, p);
    assert(n == p * c + n % p);
    if c > 10000 {
        assert(p * c >= p * 10001) by (nonlinear_arith)
            requires
                c >= 10001,
                p > 0,
        ;
        assert(false);
    }
}


/// Size of part `part_number` (counting from 1) when `size` bytes are cut
/// into parts of `part_size`: every part is full but the last.
pub open spec fn part_size_at(size: int, part_size: int, part_number: int) -> int {
    min_int(size - (part_number - 1) * part_size, part_size)
}

/// The size part `part_number` must have, or `None` when the upload has no
/// such part.
pub open spec fn spec_expected_part_size(size: int, part_size: int, part_number: int) -> Option<
    int,
> {
    if part_number <= 0 || part_number > spec_part_count(size, part_size) {
        None
    } else {
        Some(part_size_at(size, part_size, part_number))
    }
}

/// Whether the part arithmetic of a session can run without overflow or
/// division by zero.
pub open spec fn session_arithmetic_ok(session: ResumableUploadSession) -> bool {
    part_count_computable(session.size_bytes as int, session.part_size_bytes as int)
}

/// Tells whether the part arithmetic of a session can run: a positive part
/// size whose sum with the file size fits in an `i64`.
pub fn session_arithmetic_checked(session: &ResumableUploadSession) -> (r: bool)
    ensures
        r == session_arithmetic_ok(*session),
{
    session.part_size_bytes > 0 && session.size_bytes <= i64::MAX - session.part_size_bytes
}

proof fn lemma_part_offset_fits(size: int, part_size: int, part_number: int)
    requires
        size > 0,
        part_size > 0,
        1 <= part_number <= spec_part_count(size, part_size),
    ensures
        0 <= (part_number - 1) * part_size < size,
        0 < part_size_at(size, part_size, part_number) <= part_size,
{
    lemma_part_count_bounds(size, part_size);
    let c = spec_part_count(size, part_size);
    assert((part_number - 1) * part_size <= (c - 1) * part_size) by (nonlinear_arith)
        requires
            part_number <= c,
            part_size > 0,
    ;
    assert(0 <= (part_number - 1) * part_size) by (nonlinear_arith)
        requires
            part_number >= 1,
            part_size > 0,
    ;
}

proof fn lemma_no_parts_for_empty(size: int, part_size: int)
    requires
        size <= 0,
        part_size > 0,
    ensures
        spec_part_count(size, part_size) <= 0,
{
    let n = size + part_size - 1;
    if n >= 0 {
        assert(n < part_size);
        vstd::arithmetic::div_mod::lemma_basic_div(n, part_size);
    } else {
        assert((-n) / part_size >= 0) by {
            vstd::arithmetic::div_mod::lemma_div_pos_is_pos(-n, part_size);
        }
    }
}

/// The size that part `part_number` of the session must have.
pub fn expected_part_size(session: &ResumableUploadSession, part_number: i32) -> (r: Result<
    i64,
    DomainError,
>)
    requires
        session_arithmetic_ok(*session),
    ensures
        match spec_expected_part_size(
            session.size_bytes as int,
            session.part_size_bytes as int,
            part_number as int,
        ) {
            Some(expected) => r == Ok::<i64, DomainError>(expected as i64) && expected
                == r->Ok_0,
            None => r == Err::<i64, DomainError>(DomainError::InvalidFileState),
        },
{
    if part_number <= 0 {
        return Err(DomainError::InvalidFileState);
    }
    let part_number = part_number as i64;
    let total_parts = part_count(session.size_bytes, session.part_size_bytes);
    if part_number > total_parts {
        return Err(DomainError::InvalidFileState);
    }
    proof {
        if session.size_bytes <= 0 {
            lemma_no_parts_for_empty(session.size_bytes as int, session.part_size_bytes as int);
        }
        lemma_part_offset_fits(
            session.size_bytes as int,
            session.part_size_bytes as int,
            part_number as int,
        );
    }
    let before = (part_number - 1) * session.part_size_bytes;
    let rest = session.size_bytes - before;
    if rest <= session.part_size_bytes {
        Ok(rest)
    } else {
        Ok(session.part_size_bytes)
    }
}


/// Total size of a run of parts.
pub open spec fn part_sizes_sum(parts: Seq<UploadPart>) -> int
    decreases parts.len(),
{
    if parts.len() == 0 {
        0
    } else {
        part_sizes_sum(parts.drop_last()) + parts.last().size_bytes
    }
}

/// Whether part `i` (counting from 0) of `parts` is the part the upload
/// expects at that place: numbered `i + 1`, with the expected size.
pub open spec fn part_matches(size: int, part_size: int, parts: Seq<UploadPart>, i: int) -> bool {
    &&& parts[i].part_number == i + 1
    &&& parts[i].size_bytes == part_size_at(size, part_size, i + 1)
}

/// Whether the recorded parts make up the whole object: one part per
/// expected part, in order, each of its expected size, adding up to the
/// file size.
pub open spec fn parts_complete(session: ResumableUploadSession) -> bool {
    let size = session.size_bytes as int;
    let part_size = session.part_size_bytes as int;
    let parts = session.parts@;
    &&& parts.len() == spec_part_count(size, part_size)
    &&& forall|i: int| 0 <= i < parts.len() ==> part_matches(size, part_size, parts, i)
    &&& part_sizes_sum(parts) == size
}

/// The first `k` expected parts add up to `k` full parts, capped by the
/// file size.
pub proof fn lemma_matching_parts_sum(size: int, part_size: int, parts: Seq<UploadPart>, k: int)
    requires
        size > 0,
        part_size > 0,
        0 <= k <= spec_part_count(size, part_size),
        k <= parts.len(),
        forall|i: int| 0 <= i < k ==> part_matches(size, part_size, parts, i),
    ensures
        part_sizes_sum(parts.take(k)) == min_int(k * part_size, size),
    decreases k,
{
    if k == 0 {
        assert(parts.take(0).len() == 0);
    } else {
        lemma_matching_parts_sum(size, part_size, parts, k - 1);
        assert(parts.take(k).drop_last() =~= parts.take(k - 1));
        assert(part_matches(size, part_size, parts, k - 1));
        lemma_part_offset_fits(size, part_size, k);
        assert(k * part_size == (k - 1) * part_size + part_size) by (nonlinear_arith);
    }
}

/// When the size is not negative, parts that are numbered and sized as
/// expected always add up to the file size: the sum check only matters for
/// negative sizes.
pub proof fn lemma_expected_parts_cover_size(size: int, part_size: int, parts: Seq<UploadPart>)
    requires
        size >= 0,
        part_size > 0,
        parts.len() == spec_part_count(size, part_size),
        forall|i: int| 0 <= i < parts.len() ==> part_matches(size, part_size, parts, i),
    ensures
        part_sizes_sum(parts) == size,
{
    if size == 0 {
        lemma_no_parts_for_empty(size, part_size);
        assert(parts.len() == 0);
    } else {
        let c = spec_part_count(size, part_size);
        lemma_part_count_bounds(size, part_size);
        lemma_matching_parts_sum(size, part_size, parts, c);
        assert(parts.take(c) =~= parts);
    }
}

/// Checks that the recorded parts make up the whole object.
pub fn validate_complete_parts(session: &ResumableUploadSession) -> (r: Result<(), DomainError>)
    requires
        session_arithmetic_ok(*session),
    ensures
        r is Ok <==> parts_complete(*session),
        r is Err ==> r == Err::<(), DomainError>(DomainError::InvalidFileState),
{
    let ghost size = session.size_bytes as int;
    let ghost psize = session.part_size_bytes as int;
    let ghost parts = session.parts@;
    let total_parts = part_count(session.size_bytes, session.part_size_bytes);
    if total_parts < 0 || session.parts.len() as u64 != total_parts as u64 {
        return Err(DomainError::InvalidFileState);
    }
    proof {
        if size <= 0 {
            lemma_no_parts_for_empty(size, psize);
        } else {
            lemma_part_count_bounds(size, psize);
        }
    }
    let mut sum: i64 = 0;
    let mut idx: usize = 0;
    let n = session.parts.len();
    while idx < n
        invariant
            n == parts.len() == total_parts,
            idx <= n,
            size > 0 || n == 0,
            psize > 0,
            parts == session.parts@,
            size == session.size_bytes,
            psize == session.part_size_bytes,
            session_arithmetic_ok(*session),
            total_parts == spec_part_count(size, psize),
            forall|i: int| 0 <= i < idx ==> part_matches(size, psize, parts, i),
            sum == part_sizes_sum(parts.take(idx as int)),
            size > 0 ==> sum == min_int(idx * psize, size),
        decreases n - idx,
    {
        let part = &session.parts[idx];
        let expected_number = idx as i64 + 1;
        if part.part_number as i64 != expected_number {
            assert(!part_matches(size, psize, parts, idx as int));
            return Err(DomainError::InvalidFileState);
        }
        let expected_size = match expected_part_size(session, part.part_number) {
            Ok(e) => e,
            Err(e) => {
                return Err(e);
            },
        };
        if part.size_bytes != expected_size {
            assert(!part_matches(size, psize, parts, idx as int));
            return Err(DomainError::InvalidFileState);
        }
        proof {
            lemma_part_offset_fits(size, psize, idx + 1);
            lemma_matching_parts_sum(size, psize, parts, idx + 1);
            assert(parts.take(idx + 1).drop_last() =~= parts.take(idx as int));
        }
        sum = sum + part.size_bytes;
        idx = idx + 1;
    }
    assert(parts.take(n as int) =~= parts);
    if sum != session.size_bytes {
        return Err(DomainError::InvalidFileState);
    }
    Ok(())
}


/// Whether a session still accepts parts at `now`: it is pending and its
/// deadline has not been reached.
pub open spec fn session_open(session: ResumableUploadSession, now: int) -> bool {
    session.state == FileState::Pending && now < session.upload_expires_at
}

/// Refuses a session that is no longer pending or whose deadline has come.
pub fn ensure_pending_session(session: &ResumableUploadSession, now: i64) -> (r: Result<
    (),
    AppError,
>)
    ensures
        r is Ok <==> session_open(*session, now as int),
        r is Err ==> r == Err::<(), AppError>(AppError::Domain(DomainError::InvalidFileState)),
{
    if !session.state.is_pending() || session.upload_expires_at <= now {
        return Err(AppError::Domain(DomainError::InvalidFileState));
    }
    Ok(())
}

/// The deadline of a session opened at `now` (microseconds) that lives for
/// `ttl_seconds`.
pub open spec fn spec_upload_expiry(now: int, ttl_seconds: int) -> int {
    now + ttl_seconds * MICROS_PER_SECOND
}

/// Deadline of a resumable upload created at `now` with a lifetime of
/// `ttl_seconds`.
pub fn upload_expiry(now: i64, ttl_seconds: i64) -> (r: i64)
    requires
        i64::MIN <= ttl_seconds * MICROS_PER_SECOND <= i64::MAX,
        i64::MIN <= spec_upload_expiry(now as int, ttl_seconds as int) <= i64::MAX,
    ensures
        r == spec_upload_expiry(now as int, ttl_seconds as int),
{
    now + ttl_seconds * MICROS_PER_SECOND
}

/// A session created with a positive lifetime is open until its deadline
/// and closed from the deadline on.
pub proof fn lemma_session_lifetime(session: ResumableUploadSession, created: int, ttl_seconds: int, now: int)
    requires
        session.state == FileState::Pending,
        session.upload_expires_at == spec_upload_expiry(created, ttl_seconds),
    ensures
        session_open(session, now) <==> now < created + ttl_seconds * MICROS_PER_SECOND,
        !session_open(session, created + ttl_seconds * MICROS_PER_SECOND),
{
}

/// Size the presigned part must have: the session must be open and have
/// such a part.
pub fn presign_part_size(session: &ResumableUploadSession, now: i64, part_number: i32) -> (r: Result<
    i64,
    AppError,
>)
    requires
        session_arithmetic_ok(*session),
    ensures
        r is Ok <==> session_open(*session, now as int) && spec_expected_part_size(
            session.size_bytes as int,
            session.part_size_bytes as int,
            part_number as int,
        ) is Some,
        r matches Ok(size) ==> Some(size as int) == spec_expected_part_size(
            session.size_bytes as int,
            session.part_size_bytes as int,
            part_number as int,
        ),
        r is Err ==> r == Err::<i64, AppError>(AppError::Domain(DomainError::InvalidFileState)),
{
    ensure_pending_session(session, now)?;
    match expected_part_size(session, part_number) {
        Ok(size) => Ok(size),
        Err(_) => Err(AppError::Domain(DomainError::InvalidFileState)),
    }
}

/// A part the client reports as uploaded.
#[derive(Debug, Clone)]
pub struct RecordUploadPartInput {
    pub file_id: u128,
    pub part_number: i32,
    pub size_bytes: i64,
    pub etag: String,
}

/// A part as it is stored.
#[derive(Debug, Clone)]
pub struct RecordUploadPartRecord {
    pub owner_id: u128,
    pub file_id: u128,
    pub part_number: i32,
    pub size_bytes: i64,
    pub etag: String,
}

/// Checks a reported part against its session and gives the record to
/// store: the session must be open, the part must exist and have exactly
/// its expected size, and the etag, trimmed, must not be empty.
pub fn prepare_part_record(
    owner_id: u128,
    session: &ResumableUploadSession,
    now: i64,
    input: RecordUploadPartInput,
) -> (r: Result<RecordUploadPartRecord, AppError>)
    requires
        session_arithmetic_ok(*session),
    ensures
        !session_open(*session, now as int) ==> r == Err::<RecordUploadPartRecord, AppError>(
            AppError::Domain(DomainError::InvalidFileState),
        ),
        session_open(*session, now as int) && spec_expected_part_size(
            session.size_bytes as int,
            session.part_size_bytes as int,
            input.part_number as int,
        ) != Some(input.size_bytes as int) ==> r == Err::<RecordUploadPartRecord, AppError>(
            AppError::Domain(DomainError::InvalidFileState),
        ),
        session_open(*session, now as int) && spec_expected_part_size(
            session.size_bytes as int,
            session.part_size_bytes as int,
            input.part_number as int,
        ) == Some(input.size_bytes as int) ==> if trim(input.etag@).len() == 0 {
            r == Err::<RecordUploadPartRecord, AppError>(
                AppError::Domain(DomainError::Validation("etag is required")),
            )
        } else {
            r matches Ok(record) && record.owner_id == owner_id && record.file_id
                == input.file_id && record.part_number == input.part_number && record.size_bytes
                == input.size_bytes && record.etag@ == trim(input.etag@)
        },
{
    ensure_pending_session(session, now)?;
    let expected_size = match expected_part_size(session, input.part_number) {
        Ok(size) => size,
        Err(_) => {
            return Err(AppError::Domain(DomainError::InvalidFileState));
        },
    };
    if input.size_bytes != expected_size {
        return Err(AppError::Domain(DomainError::InvalidFileState));
    }
    let etag = trim_str(input.etag.as_str());
    if etag.as_str().is_empty() {
        return Err(AppError::Domain(DomainError::Validation("etag is required")));
    }
    Ok(RecordUploadPartRecord {
        owner_id,
        file_id: input.file_id,
        part_number: input.part_number,
        size_bytes: input.size_bytes,
        etag,
    })
}

/// The part list to hand to object storage for a session's parts.
pub open spec fn completed_parts_of(parts: Seq<UploadPart>) -> Seq<(i32, Seq<char>)> {
    parts.map_values(|p: UploadPart| (p.part_number, p.etag@))
}

/// View of a list of completed parts as (number, etag) pairs.
pub open spec fn completed_parts_view(parts: Seq<CompletedUploadPart>) -> Seq<(i32, Seq<char>)> {
    parts.map_values(|p: CompletedUploadPart| (p.part_number, p.etag@))
}

/// Checks that an open session holds every part and gives the parts to
/// complete the multipart upload with, in order.
pub fn prepare_finalize(session: &ResumableUploadSession, now: i64) -> (r: Result<
    Vec<CompletedUploadPart>,
    AppError,
>)
    requires
        session_arithmetic_ok(*session),
    ensures
        r is Ok <==> session_open(*session, now as int) && parts_complete(*session),
        r matches Ok(parts) ==> completed_parts_view(parts@) == completed_parts_of(
            session.parts@,
        ),
        r is Err ==> r == Err::<Vec<CompletedUploadPart>, AppError>(
            AppError::Domain(DomainError::InvalidFileState),
        ),
{
    ensure_pending_session(session, now)?;
    if validate_complete_parts(session).is_err() {
        return Err(AppError::Domain(DomainError::InvalidFileState));
    }
    let mut out: Vec<CompletedUploadPart> = Vec::new();
    let n = session.parts.len();
    for i in 0..n
        invariant
            n == session.parts@.len(),
            out@.len() == i,
            completed_parts_view(out@) == completed_parts_of(session.parts@.take(i as int)),
    {
        let part = &session.parts[i];
        let etag = part.etag.clone();
        let ghost before = out@;
        out.push(CompletedUploadPart { part_number: part.part_number, etag });
        proof {
            let lhs = completed_parts_view(out@);
            let rhs = completed_parts_of(session.parts@.take(i + 1));
            assert(lhs.len() == rhs.len());
            assert forall|j: int| 0 <= j < lhs.len() implies lhs[j] == rhs[j] by {
                if j < i {
                    assert(out@[j] == before[j]);
                    assert(completed_parts_view(before)[j] == completed_parts_of(
                        session.parts@.take(i as int),
                    )[j]);
                }
            }
            assert(lhs =~= rhs);
        }
    }
    assert(session.parts@.take(n as int) =~= session.parts@);
    Ok(out)
}

/// Refuses a stored object whose length is not the expected file size.
pub fn check_object_length(object: ObjectMetadata, expected_size: i64) -> (r: Result<(), AppError>)
    ensures
        r is Ok <==> object.content_length == expected_size,
        r is Err ==> r == Err::<(), AppError>(AppError::Storage),
{
    if object.content_length != expected_size {
        Err(AppError::Storage)
    } else {
        Ok(())
    }
}

/// Refuses to complete a single-shot upload whose row is not pending.
pub fn check_completion_candidate(row: &PendingFile) -> (r: Result<(), AppError>)
    ensures
        r is Ok <==> row.state == FileState::Pending,
        r is Err ==> r == Err::<(), AppError>(AppError::Domain(DomainError::InvalidFileState)),
{
    if !row.state.is_pending() {
        return Err(AppError::Domain(DomainError::InvalidFileState));
    }
    Ok(())
}

/// Bounds a background job's batch size to `1..=1000`.
pub fn clamp_batch_limit(limit: i64) -> (r: i64)
    ensures
        r == if limit < 1 {
            1
        } else if limit > 1000 {
            1000
        } else {
            limit
        },
{
    if limit < 1 {
        1
    } else if limit > 1000 {
        1000
    } else {
        limit
    }
}

/// Outcome of one run of the job that expires abandoned resumable uploads.
#[derive(Debug, Clone, Copy, PartialEq, Eq)]
pub struct ExpireUploadsOutput {
    pub expired_count: usize,
    pub aborted_count: usize,
}

/// How many entries of `s` are `true`.
pub open spec fn count_true(s: Seq<bool>) -> nat
    decreases s.len(),
{
    if s.len() == 0 {
        0
    } else {
        count_true(s.drop_last()) + if s.last() {
            1nat
        } else {
            0nat
        }
    }
}

proof fn lemma_count_true_bound(s: Seq<bool>)
    ensures
        count_true(s) <= s.len(),
    decreases s.len(),
{
    if s.len() > 0 {
        lemma_count_true_bound(s.drop_last());
    }
}

impl ExpireUploadsOutput {
    /// Summary of a run in which each expired upload's multipart upload was
    /// aborted with the outcome at the same place of `aborted`.
    pub fn from_abort_results(aborted: &Vec<bool>) -> (r: ExpireUploadsOutput)
        ensures
            r.expired_count == aborted@.len(),
            r.aborted_count == count_true(aborted@),
    {
        let n = aborted.len();
        let mut count: usize = 0;
        for i in 0..n
            invariant
                n == aborted@.len(),
                count == count_true(aborted@.take(i as int)),
        {
            proof {
                assert(aborted@.take(i + 1).drop_last() =~= aborted@.take(i as int));
                lemma_count_true_bound(aborted@.take(i as int));
            }
            if aborted[i] {
                count = count + 1;
            }
        }
        assert(aborted@.take(n as int) =~= aborted@);
        ExpireUploadsOutput { expired_count: n, aborted_count: count }
    }
}

/// The part size a request ends up with is the smallest size that is at
/// least the size asked for (8 MiB when none is asked for), at least 5 MiB,
/// and large enough that 10 000 parts hold the whole file. In particular a
/// request that already meets both bounds is kept as it is.
pub proof fn lemma_effective_part_size_is_least(size: int, requested: Option<i64>, other: int)
    ensures
        effective_part_size(size, requested) >= 5_242_880,
        effective_part_size(size, requested) * 10_000 >= size,
        requested matches Some(p) ==> effective_part_size(size, requested) >= p,
        requested is None ==> effective_part_size(size, requested) >= 8_388_608,
        other >= 5_242_880 && other * 10_000 >= size && (match requested {
            Some(p) => other >= p,
            None => other >= 8_388_608,
        }) ==> other >= effective_part_size(size, requested),
        match requested {
            Some(p) => p >= 5_242_880 && p * 10_000 >= size ==> effective_part_size(size, requested) == p,
            None => true,
        },
{
    let m = trunc_div(size + MAX_MULTIPART_PARTS - 1, MAX_MULTIPART_PARTS as int);
    if size + 9_999 >= 0 {
        assert(m == (size + 9_999) / 10_000);
        assert(m * 10_000 >= size);
        assert(other * 10_000 >= size ==> other >= m);
    } else {
        assert(m <= 0);
    }
}

/// A resumable upload stays open for its lifetime in seconds of 1 000 000
/// microseconds, counted from its creation.
pub proof fn lemma_upload_expiry_counts_seconds(now: int, ttl_seconds: int)
    ensures
        spec_upload_expiry(now, ttl_seconds) == now + ttl_seconds * 1_000_000,
        spec_upload_expiry(now, ttl_seconds) - now == ttl_seconds * 1_000_000,
{
}

} // verus!
