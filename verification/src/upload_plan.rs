use vstd::prelude::*;

verus! {

/// Size of every multipart chunk except possibly the last one (8 MiB).
pub const CHUNK_SIZE: u64 = 1024 * 1024 * 8;

/// The most parts a multipart upload may have.
pub const MAX_CHUNKS: u64 = 10000;

/// Files up to this size (50 MiB) are sent with one request.
pub const SINGLE_PUT_LIMIT: u64 = 50 * 1024 * 1024;

/// Number of chunks of `CHUNK_SIZE` bytes needed to cover `file_size` bytes.
pub open spec fn chunks_needed(file_size: nat) -> nat {
    if file_size % (CHUNK_SIZE as nat) == 0 {
        file_size / (CHUNK_SIZE as nat)
    } else {
        file_size / (CHUNK_SIZE as nat) + 1
    }
}

/// Size of the final chunk when `file_size` bytes are cut into chunks.
pub open spec fn final_chunk_size(file_size: nat) -> nat {
    if file_size % (CHUNK_SIZE as nat) == 0 {
        CHUNK_SIZE as nat
    } else {
        file_size % (CHUNK_SIZE as nat)
    }
}

/// How a file of a given size is sent.
#[derive(Debug, Clone, Copy, PartialEq, Eq, Structural)]
pub enum UploadPlan {
    /// One `PutObject` request carries the whole file.
    Single,
    /// A multipart upload of `chunk_count` parts; every part has `CHUNK_SIZE`
    /// bytes except the last, which has `last_chunk_size` bytes.
    Multipart { chunk_count: u64, last_chunk_size: u64 },
}

/// Why a file cannot be uploaded.
#[derive(Debug, Clone, Copy, PartialEq, Eq, Structural)]
pub enum PlanError {
    /// The file is empty.
    EmptyFile,
    /// The file needs `chunk_count` parts, more than `MAX_CHUNKS`.
    TooManyChunks { chunk_count: u64 },
}

/// The plan for `file_size` bytes, as a mathematical function.
pub open spec fn spec_plan_upload(file_size: nat) -> Result<UploadPlan, PlanError> {
    if file_size == 0 {
        Err(PlanError::EmptyFile)
    } else if file_size <= SINGLE_PUT_LIMIT {
        Ok(UploadPlan::Single)
    } else if chunks_needed(file_size) > MAX_CHUNKS {
        Err(PlanError::TooManyChunks { chunk_count: chunks_needed(file_size) as u64 })
    } else {
        Ok(
            UploadPlan::Multipart {
                chunk_count: chunks_needed(file_size) as u64,
                last_chunk_size: final_chunk_size(file_size) as u64,
            },
        )
    }
}

proof fn lemma_chunk_arithmetic(file_size: nat)
    ensures
        chunks_needed(file_size) <= file_size,
        file_size > 0 ==> chunks_needed(file_size) >= 1,
        file_size > 0 ==> 0 < final_chunk_size(file_size) <= CHUNK_SIZE,
        file_size > 0 ==> (chunks_needed(file_size) - 1) * (CHUNK_SIZE as nat) + final_chunk_size(
            file_size,
        ) == file_size,
{
    let c = CHUNK_SIZE as nat;
    let q = file_size / c;
    let r = file_size % c;
    assert(q * c + r == file_size) by (nonlinear_arith)
        requires
            c > 0,
            q == file_size / c,
            r == file_size % c,
    ;
    assert(q <= file_size) by (nonlinear_arith)
        requires
            c > 0,
            q * c + r == file_size,
            r >= 0,
    ;
    if r != 0 {
        assert(q + 1 <= file_size) by (nonlinear_arith)
            requires
                c > 1,
                q * c + r == file_size,
                0 < r < c,
        ;
    }
    if file_size > 0 && r == 0 {
        assert(q >= 1) by (nonlinear_arith)
            requires
                q * c == file_size,
                file_size > 0,
        ;
        assert((q - 1) * c + c == q * c) by (nonlinear_arith);
    }
}

/// Decides how `file_size` bytes are uploaded: an empty file is refused, up to
/// `SINGLE_PUT_LIMIT` bytes go in one request, and larger files are cut into
/// `CHUNK_SIZE` chunks, refused when more than `MAX_CHUNKS` would be needed.
pub fn plan_upload(file_size: u64) -> (plan: Result<UploadPlan, PlanError>)
    ensures
        plan == spec_plan_upload(file_size as nat),
{
    proof {
        lemma_chunk_arithmetic(file_size as nat);
    }
    if file_size == 0 {
        return Err(PlanError::EmptyFile);
    }
    if file_size <= SINGLE_PUT_LIMIT {
        return Ok(UploadPlan::Single);
    }
    assert(file_size / CHUNK_SIZE < u64::MAX) by (nonlinear_arith)
        requires
            CHUNK_SIZE == 8388608,
    ;
    let mut chunk_count: u64 = (file_size / CHUNK_SIZE) + 1;
    let mut last_chunk_size: u64 = file_size % CHUNK_SIZE;
    if last_chunk_size == 0 {
        last_chunk_size = CHUNK_SIZE;
        chunk_count = chunk_count - 1;
    }
    if chunk_count > MAX_CHUNKS {
        return Err(PlanError::TooManyChunks { chunk_count });
    }
    Ok(UploadPlan::Multipart { chunk_count, last_chunk_size })
}

/// Size of chunk `chunk_index` of `chunk_count` chunks whose last one has
/// `prev_chunk_size` bytes.
pub open spec fn spec_chunk_size_for(chunk_index: int, chunk_count: int, prev_chunk_size: int) -> int {
    if chunk_index == chunk_count - 1 {
        prev_chunk_size
    } else {
        CHUNK_SIZE as int
    }
}

/// Size of chunk `chunk_index`: the last chunk has `prev_chunk_size` bytes,
/// every other one `CHUNK_SIZE`.
pub fn chunk_size_for(chunk_index: u64, chunk_count: u64, prev_chunk_size: u64) -> (size: u64)
    requires
        chunk_count >= 1,
    ensures
        size == spec_chunk_size_for(chunk_index as int, chunk_count as int, prev_chunk_size as int),
{
    if chunk_index == chunk_count - 1 {
        prev_chunk_size
    } else {
        CHUNK_SIZE
    }
}

/// One part of a multipart upload: which chunk of the file it carries and
/// under which part number it is sent.
#[derive(Debug, Clone, Copy, PartialEq, Eq, Structural)]
pub struct ChunkJob {
    /// Zero-based index of the chunk.
    pub index: u64,
    /// One-based part number sent with the chunk.
    pub part_number: i32,
    /// Byte offset of the chunk in the file.
    pub offset: u64,
    /// Number of bytes in the chunk.
    pub size: u64,
}

/// The job for chunk `index` of a plan with `chunk_count` chunks whose last
/// chunk has `last_chunk_size` bytes.
pub open spec fn spec_chunk_job(index: int, chunk_count: int, last_chunk_size: int) -> ChunkJob {
    ChunkJob {
        index: index as u64,
        part_number: (index + 1) as i32,
        offset: (index * CHUNK_SIZE) as u64,
        size: spec_chunk_size_for(index, chunk_count, last_chunk_size) as u64,
    }
}

/// Builds the job for chunk `chunk_index`: part number `chunk_index + 1`,
/// starting at byte `chunk_index * CHUNK_SIZE`, of the size `chunk_size_for`
/// gives.
pub fn chunk_job(chunk_index: u64, chunk_count: u64, last_chunk_size: u64) -> (job: ChunkJob)
    requires
        chunk_index < chunk_count <= MAX_CHUNKS,
    ensures
        job == spec_chunk_job(chunk_index as int, chunk_count as int, last_chunk_size as int),
        job.part_number == chunk_index + 1,
        job.offset == chunk_index * CHUNK_SIZE,
{
    let size = chunk_size_for(chunk_index, chunk_count, last_chunk_size);
    assert(chunk_index * CHUNK_SIZE < MAX_CHUNKS * CHUNK_SIZE) by (nonlinear_arith)
        requires
            chunk_index < MAX_CHUNKS,
    ;
    ChunkJob {
        index: chunk_index,
        part_number: (chunk_index as i32) + 1,
        offset: chunk_index * CHUNK_SIZE,
        size,
    }
}

/// Total bytes of the first `n` chunks.
pub open spec fn chunk_bytes_before(n: nat, chunk_count: int, last_chunk_size: int) -> int
    decreases n,
{
    if n == 0 {
        0
    } else {
        chunk_bytes_before((n - 1) as nat, chunk_count, last_chunk_size) + spec_chunk_size_for(
            n - 1,
            chunk_count,
            last_chunk_size,
        )
    }
}

proof fn lemma_chunk_bytes_before(n: nat, chunk_count: int, last_chunk_size: int)
    requires
        n <= chunk_count,
    ensures
        n < chunk_count ==> chunk_bytes_before(n, chunk_count, last_chunk_size) == n
            * CHUNK_SIZE,
        n == chunk_count && n >= 1 ==> chunk_bytes_before(n, chunk_count, last_chunk_size) == (n
            - 1) * CHUNK_SIZE + last_chunk_size,
    decreases n,
{
    if n > 0 {
        lemma_chunk_bytes_before((n - 1) as nat, chunk_count, last_chunk_size);
        assert((n - 1) * CHUNK_SIZE + CHUNK_SIZE == n * CHUNK_SIZE) by (nonlinear_arith);
        assert(chunk_bytes_before(n, chunk_count, last_chunk_size) == chunk_bytes_before(
            (n - 1) as nat,
            chunk_count,
            last_chunk_size,
        ) + spec_chunk_size_for(n - 1, chunk_count, last_chunk_size));
    } else {
        assert(chunk_bytes_before(0, chunk_count, last_chunk_size) == 0);
        assert(n * CHUNK_SIZE == 0) by (nonlinear_arith)
            requires
                n == 0,
        ;
    }
}

/// For any non-empty file of `file_size` bytes, the chunk count
/// `(file_size + CHUNK_SIZE - 1) / CHUNK_SIZE` and final chunk
/// `file_size - (count - 1) * CHUNK_SIZE` are the ones `plan_upload` uses,
/// every chunk `chunk_size_for` gives is non-empty and at most `CHUNK_SIZE`
/// bytes, and together the chunks hold exactly `file_size` bytes.
pub proof fn lemma_chunks_tile_file(file_size: nat)
    requires
        file_size >= 1,
    ensures
        chunks_needed(file_size) == (file_size + CHUNK_SIZE - 1) / (CHUNK_SIZE as int),
        final_chunk_size(file_size) == file_size - (chunks_needed(file_size) - 1) * CHUNK_SIZE,
        chunks_needed(file_size) >= 1,
        forall|i: int|
            0 <= i < chunks_needed(file_size) ==> 1 <= #[trigger] spec_chunk_size_for(
                i,
                chunks_needed(file_size) as int,
                final_chunk_size(file_size) as int,
            ) <= CHUNK_SIZE,
        chunk_bytes_before(
            chunks_needed(file_size),
            chunks_needed(file_size) as int,
            final_chunk_size(file_size) as int,
        ) == file_size,
{
    lemma_chunk_arithmetic(file_size);
    let c = CHUNK_SIZE as int;
    let n = file_size as int;
    let q = n / c;
    let r = n % c;
    assert(q * c + r == n && 0 <= r < c) by (nonlinear_arith)
        requires
            c > 0,
            q == n / c,
            r == n % c,
    ;
    if r == 0 {
        assert((n + c - 1) / c == q) by (nonlinear_arith)
            requires
                q * c == n,
                c > 1,
        ;
    } else {
        assert((n + c - 1) / c == q + 1) by (nonlinear_arith)
            requires
                q * c + r == n,
                0 < r < c,
        ;
    }
    lemma_chunk_bytes_before(
        chunks_needed(file_size),
        chunks_needed(file_size) as int,
        final_chunk_size(file_size) as int,
    );
}

/// The chunks of a multipart plan tile the file: each starts where the one
/// before it ends, the last ends at the end of the file, every chunk is
/// non-empty and at most `CHUNK_SIZE` bytes, and their sizes add up to the
/// file size.
pub proof fn lemma_plan_chunks_tile_file(file_size: u64, chunk_count: u64, last_chunk_size: u64)
    requires
        spec_plan_upload(file_size as nat) == Ok::<UploadPlan, PlanError>(
            UploadPlan::Multipart { chunk_count, last_chunk_size },
        ),
    ensures
        1 <= chunk_count <= MAX_CHUNKS,
        chunk_bytes_before(chunk_count as nat, chunk_count as int, last_chunk_size as int)
            == file_size,
        forall|i: int|
            0 <= i < chunk_count ==> 0 < #[trigger] spec_chunk_size_for(
                i,
                chunk_count as int,
                last_chunk_size as int,
            ) <= CHUNK_SIZE,
        forall|i: int|
            0 <= i < chunk_count - 1 ==> #[trigger] spec_chunk_job(
                i,
                chunk_count as int,
                last_chunk_size as int,
            ).offset + spec_chunk_job(i, chunk_count as int, last_chunk_size as int).size
                == spec_chunk_job(i + 1, chunk_count as int, last_chunk_size as int).offset,
        spec_chunk_job(chunk_count - 1, chunk_count as int, last_chunk_size as int).offset
            + last_chunk_size == file_size,
{
    lemma_chunk_arithmetic(file_size as nat);
    lemma_chunk_bytes_before(chunk_count as nat, chunk_count as int, last_chunk_size as int);
    assert forall|i: int| 0 <= i < chunk_count - 1 implies #[trigger] spec_chunk_job(
        i,
        chunk_count as int,
        last_chunk_size as int,
    ).offset + spec_chunk_job(i, chunk_count as int, last_chunk_size as int).size
        == spec_chunk_job(i + 1, chunk_count as int, last_chunk_size as int).offset by {
        assert(i * CHUNK_SIZE + CHUNK_SIZE == (i + 1) * CHUNK_SIZE) by (nonlinear_arith);
        assert((i + 1) * CHUNK_SIZE <= (chunk_count - 1) * CHUNK_SIZE) by (nonlinear_arith)
            requires
                i + 1 <= chunk_count - 1,
        ;
        assert(i * CHUNK_SIZE >= 0) by (nonlinear_arith)
            requires
                i >= 0,
        ;
    }
}

/// Which files go in one request: every non-empty file of at most 50 MiB
/// (52428800 bytes) is sent whole, no larger file is, and an empty file is
/// refused.
pub proof fn lemma_single_request_exactly_up_to_50_mib(file_size: nat)
    ensures
        file_size == 0 ==> spec_plan_upload(file_size) == Err::<UploadPlan, PlanError>(
            PlanError::EmptyFile,
        ),
        0 < file_size <= 52428800 ==> spec_plan_upload(file_size) == Ok::<UploadPlan, PlanError>(
            UploadPlan::Single,
        ),
        file_size > 52428800 ==> spec_plan_upload(file_size) != Ok::<UploadPlan, PlanError>(
            UploadPlan::Single,
        ),
{
}

/// A file larger than 50 MiB is cut into `ceil(file_size / 8 MiB)` parts,
/// refused when that is more than 10000, and otherwise planned with a last
/// part that brings the total to exactly `file_size` bytes.
pub proof fn lemma_multipart_plan_of_large_files(file_size: nat)
    requires
        file_size > 52428800,
    ensures
        ({
            let count = (file_size + 8388607) / 8388608;
            &&& count > 10000 ==> spec_plan_upload(file_size) == Err::<UploadPlan, PlanError>(
                PlanError::TooManyChunks { chunk_count: count as u64 },
            )
            &&& count <= 10000 ==> (spec_plan_upload(file_size) matches Ok(
                UploadPlan::Multipart { chunk_count, last_chunk_size },
            ) && chunk_count == count && 0 < last_chunk_size <= 8388608 && (count - 1) * 8388608
                + last_chunk_size == file_size)
        }),
{
    lemma_chunks_tile_file(file_size);
    lemma_chunk_arithmetic(file_size);
}

} // verus!
