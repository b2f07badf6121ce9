use vstd::prelude::*;
use vstd::set_lib::*;

use crate::upload_plan::{
    chunk_job, lemma_plan_chunks_tile_file, spec_chunk_job, spec_chunk_size_for, spec_plan_upload,
    ChunkJob, PlanError, UploadPlan, CHUNK_SIZE, MAX_CHUNKS,
};

verus! {

broadcast use vstd::set::group_set_axioms;

/// A part whose upload finished: its part number and the entity tag the
/// service returned for it.
#[derive(Debug, Clone, PartialEq, Eq)]
pub struct PartRecord {
    pub part_number: i32,
    pub e_tag: String,
}

/// What became of a part that uploaded successfully.
#[derive(Debug, Clone, Copy, PartialEq, Eq, Structural)]
pub enum PartOutcome {
    /// The part was recorded; `bytes` more bytes count as uploaded.
    Recorded { bytes: u64 },
    /// The upload is being aborted, so the part was dropped.
    Discarded,
}

/// What became of a part upload that failed.
#[derive(Debug, Clone, Copy, PartialEq, Eq, Structural)]
pub enum FailureOutcome {
    /// This is the first failure: the upload is now being aborted and the
    /// remaining uploads should be cancelled.
    AbortStarted,
    /// An earlier failure already started the abort.
    AlreadyAborting,
}

/// Why a multipart upload did not complete.
#[derive(Debug, Clone, Copy, PartialEq, Eq, Structural)]
pub enum ScheduleError {
    /// A part upload failed and the upload was aborted.
    Aborted,
}

/// Bytes counted as uploaded once the chunks in `recorded` are recorded:
/// every recorded chunk has `CHUNK_SIZE` bytes except the final one.
pub open spec fn recorded_bytes(recorded: Set<int>, chunk_count: int, last_chunk_size: int) -> int {
    if recorded.contains(chunk_count - 1) {
        (recorded.len() - 1) * CHUNK_SIZE + last_chunk_size
    } else {
        recorded.len() * CHUNK_SIZE
    }
}

/// Hands out the chunks of a multipart upload to concurrent part uploads and
/// keeps count of what is in flight and what has finished.
///
/// Chunks are handed out in order, each once; a new upload starts only while
/// fewer uploads are active than the current concurrency target; the first
/// failure stops further launches and drops parts that finish afterwards.
pub struct UploadScheduler {
    chunk_count: u64,
    last_chunk_size: u64,
    next_chunk_idx: u64,
    active_uploads: usize,
    aborting: bool,
    uploaded_bytes: u64,
    in_flight_flags: Vec<bool>,
    parts: Vec<PartRecord>,
    in_flight: Ghost<Set<int>>,
    recorded: Ghost<Set<int>>,
}

impl UploadScheduler {
    /// Number of chunks of the upload.
    pub closed spec fn chunk_count(&self) -> nat {
        self.chunk_count as nat
    }

    /// Size of the final chunk.
    pub closed spec fn last_chunk_size(&self) -> nat {
        self.last_chunk_size as nat
    }

    /// Index of the next chunk to hand out.
    pub closed spec fn next_index(&self) -> nat {
        self.next_chunk_idx as nat
    }

    /// Number of part uploads started and not yet finished.
    pub closed spec fn active(&self) -> nat {
        self.active_uploads as nat
    }

    /// Whether a part upload has failed.
    pub closed spec fn aborting(&self) -> bool {
        self.aborting
    }

    /// Bytes of the parts recorded so far.
    pub closed spec fn uploaded(&self) -> nat {
        self.uploaded_bytes as nat
    }

    /// Chunks whose upload was started and has not been reported back.
    pub closed spec fn in_flight(&self) -> Set<int> {
        self.in_flight@
    }

    /// Chunks whose part was recorded.
    pub closed spec fn recorded(&self) -> Set<int> {
        self.recorded@
    }

    /// The recorded parts, in the order they finished.
    pub closed spec fn parts(&self) -> Seq<PartRecord> {
        self.parts@
    }

    /// The scheduler's internal invariant.
    pub closed spec fn wf(&self) -> bool {
        &&& 1 <= self.chunk_count <= MAX_CHUNKS
        &&& self.last_chunk_size <= CHUNK_SIZE
        &&& self.next_chunk_idx <= self.chunk_count
        &&& self.in_flight_flags@.len() == self.chunk_count
        &&& forall|i: int|
            0 <= i < self.chunk_count ==> (#[trigger] self.in_flight_flags@[i]
                <==> self.in_flight@.contains(i))
        &&& self.in_flight@.finite()
        &&& self.recorded@.finite()
        &&& self.in_flight@.subset_of(set_int_range(0, self.next_chunk_idx as int))
        &&& self.recorded@.subset_of(set_int_range(0, self.next_chunk_idx as int))
        &&& self.in_flight@.disjoint(self.recorded@)
        &&& !self.aborting ==> self.active_uploads == self.in_flight@.len()
        &&& !self.aborting ==> self.in_flight@.len() + self.recorded@.len()
            == self.next_chunk_idx
        &&& self.recorded@.len() <= self.next_chunk_idx
        &&& self.parts@.len() == self.recorded@.len()
        &&& forall|k: int|
            0 <= k < self.parts@.len() ==> self.recorded@.contains(
                #[trigger] self.parts@[k].part_number - 1,
            )
        &&& forall|k1: int, k2: int|
            0 <= k1 < self.parts@.len() && 0 <= k2 < self.parts@.len() && k1 != k2
                ==> #[trigger] self.parts@[k1].part_number != #[trigger] self.parts@[k2].part_number
        &&& self.uploaded_bytes == recorded_bytes(
            self.recorded@,
            self.chunk_count as int,
            self.last_chunk_size as int,
        )
    }

    /// Whether going from `before` to `after` respects concurrency target
    /// `target`: either no upload started and none more are active, or one
    /// upload started, while fewer than `target` were active.
    pub open spec fn bounded_step(before: &Self, after: &Self, target: nat) -> bool {
        ||| after.next_index() == before.next_index() && after.active() <= before.active()
        ||| after.next_index() == before.next_index() + 1 && before.active() < target
            && after.active() == before.active() + 1
    }

    /// Whether a new chunk upload may start under concurrency target `target`.
    pub open spec fn can_launch(&self, target: nat) -> bool {
        !self.aborting() && self.active() < target && self.next_index() < self.chunk_count()
    }

    /// Whether the upload is over: no upload is in flight, and either every
    /// chunk was handed out or a part failed (after which nothing more is
    /// handed out).
    pub open spec fn finished(&self) -> bool {
        self.active() == 0 && (self.aborting() || self.next_index() >= self.chunk_count())
    }

    /// A scheduler for `chunk_count` chunks whose last one has
    /// `last_chunk_size` bytes, with nothing started yet.
    pub fn new(chunk_count: u64, last_chunk_size: u64) -> (s: Self)
        requires
            1 <= chunk_count <= MAX_CHUNKS,
            last_chunk_size <= CHUNK_SIZE,
        ensures
            s.wf(),
            s.chunk_count() == chunk_count,
            s.last_chunk_size() == last_chunk_size,
            s.next_index() == 0,
            s.active() == 0,
            !s.aborting(),
            s.uploaded() == 0,
            s.in_flight() == Set::<int>::empty(),
            s.recorded() == Set::<int>::empty(),
            s.parts() == Seq::<PartRecord>::empty(),
    {
        let mut flags: Vec<bool> = Vec::new();
        let mut i: u64 = 0;
        while i < chunk_count
            invariant
                i <= chunk_count,
                flags@.len() == i,
                forall|j: int| 0 <= j < i ==> !#[trigger] flags@[j],
            decreases chunk_count - i,
        {
            flags.push(false);
            i = i + 1;
        }
        let s = UploadScheduler {
            chunk_count,
            last_chunk_size,
            next_chunk_idx: 0,
            active_uploads: 0,
            aborting: false,
            uploaded_bytes: 0,
            in_flight_flags: flags,
            parts: Vec::new(),
            in_flight: Ghost(Set::empty()),
            recorded: Ghost(Set::empty()),
        };
        assert(s.recorded@ =~= Set::<int>::empty());
        s
    }

    /// Number of part uploads in flight.
    pub fn active_uploads(&self) -> (n: usize)
        ensures
            n == self.active(),
    {
        self.active_uploads
    }

    /// Index of the next chunk to hand out.
    pub fn next_chunk_index(&self) -> (n: u64)
        ensures
            n == self.next_index(),
    {
        self.next_chunk_idx
    }

    /// Bytes of the parts recorded so far.
    pub fn uploaded_bytes(&self) -> (n: u64)
        ensures
            n == self.uploaded(),
    {
        self.uploaded_bytes
    }

    /// Whether a part upload has failed.
    pub fn is_aborting(&self) -> (b: bool)
        ensures
            b == self.aborting(),
    {
        self.aborting
    }

    /// Whether the upload of chunk `chunk_index` was started and not yet
    /// reported back.
    pub fn is_in_flight(&self, chunk_index: u64) -> (b: bool)
        requires
            self.wf(),
        ensures
            b == self.in_flight().contains(chunk_index as int),
    {
        if chunk_index < self.chunk_count {
            self.in_flight_flags[chunk_index as usize]
        } else {
            false
        }
    }

    /// Whether no upload is in flight and either every chunk was handed out
    /// or a part failed.
    pub fn is_finished(&self) -> (b: bool)
        ensures
            b == self.finished(),
    {
        self.active_uploads == 0 && (self.aborting || self.next_chunk_idx >= self.chunk_count)
    }

    /// Starts the next chunk upload if no part has failed, fewer than
    /// `target_concurrency` uploads are active and chunks remain; the chunk
    /// handed out is always the next one in order.
    pub fn try_launch(&mut self, target_concurrency: usize) -> (job: Option<ChunkJob>)
        requires
            old(self).wf(),
        ensures
            final(self).wf(),
            Self::bounded_step(old(self), final(self), target_concurrency as nat),
            final(self).chunk_count() == old(self).chunk_count(),
            final(self).last_chunk_size() == old(self).last_chunk_size(),
            final(self).aborting() == old(self).aborting(),
            final(self).uploaded() == old(self).uploaded(),
            final(self).recorded() == old(self).recorded(),
            final(self).parts() == old(self).parts(),
            old(self).can_launch(target_concurrency as nat) ==> {
                &&& job == Some(
                    spec_chunk_job(
                        old(self).next_index() as int,
                        old(self).chunk_count() as int,
                        old(self).last_chunk_size() as int,
                    ),
                )
                &&& final(self).next_index() == old(self).next_index() + 1
                &&& final(self).active() == old(self).active() + 1
                &&& final(self).active() <= target_concurrency
                &&& final(self).in_flight() == old(self).in_flight().insert(
                    old(self).next_index() as int,
                )
            },
            !old(self).can_launch(target_concurrency as nat) ==> {
                &&& job is None
                &&& final(self).next_index() == old(self).next_index()
                &&& final(self).active() == old(self).active()
                &&& final(self).in_flight() == old(self).in_flight()
            },
    {
        if !self.aborting && self.active_uploads < target_concurrency
            && self.next_chunk_idx < self.chunk_count {
            let idx = self.next_chunk_idx;
            let job = chunk_job(idx, self.chunk_count, self.last_chunk_size);
            proof {
                lemma_int_range(0, idx as int);
                assert(!self.in_flight@.contains(idx as int));
            }
            self.in_flight_flags.set(idx as usize, true);
            self.next_chunk_idx = idx + 1;
            self.active_uploads = self.active_uploads + 1;
            self.in_flight = Ghost(self.in_flight@.insert(idx as int));
            proof {
                assert(self.in_flight@.subset_of(set_int_range(0, self.next_chunk_idx as int)));
                assert(self.recorded@.subset_of(set_int_range(0, self.next_chunk_idx as int)));
            }
            Some(job)
        } else {
            None
        }
    }

    /// Reports that the upload of chunk `chunk_index` succeeded with entity
    /// tag `e_tag` (empty when the service sent none). Unless the upload is
    /// being aborted, the part is recorded and its bytes are counted.
    pub fn on_part_uploaded(&mut self, chunk_index: u64, e_tag: Option<String>) -> (outcome:
        PartOutcome)
        requires
            old(self).wf(),
            old(self).active() > 0,
            old(self).in_flight().contains(chunk_index as int),
        ensures
            final(self).wf(),
            forall|target: nat| #[trigger] Self::bounded_step(old(self), final(self), target),
            final(self).chunk_count() == old(self).chunk_count(),
            final(self).last_chunk_size() == old(self).last_chunk_size(),
            final(self).next_index() == old(self).next_index(),
            final(self).aborting() == old(self).aborting(),
            final(self).active() == old(self).active() - 1,
            final(self).in_flight() == old(self).in_flight().remove(chunk_index as int),
            !old(self).aborting() ==> {
                &&& outcome == PartOutcome::Recorded {
                    bytes: spec_chunk_size_for(
                        chunk_index as int,
                        old(self).chunk_count() as int,
                        old(self).last_chunk_size() as int,
                    ) as u64,
                }
                &&& final(self).recorded() == old(self).recorded().insert(chunk_index as int)
                &&& final(self).uploaded() == old(self).uploaded() + spec_chunk_size_for(
                    chunk_index as int,
                    old(self).chunk_count() as int,
                    old(self).last_chunk_size() as int,
                )
                &&& final(self).parts().len() == old(self).parts().len() + 1
                &&& final(self).parts().drop_last() == old(self).parts()
                &&& final(self).parts().last().part_number == chunk_index + 1
                &&& final(self).parts().last().e_tag@ == match e_tag {
                    Some(t) => t@,
                    None => Seq::<char>::empty(),
                }
            },
            old(self).aborting() ==> {
                &&& outcome == PartOutcome::Discarded
                &&& final(self).recorded() == old(self).recorded()
                &&& final(self).uploaded() == old(self).uploaded()
                &&& final(self).parts() == old(self).parts()
            },
    {
        let idx = chunk_index;
        proof {
            lemma_int_range(0, self.next_chunk_idx as int);
        }
        self.in_flight_flags.set(idx as usize, false);
        self.active_uploads = self.active_uploads - 1;
        self.in_flight = Ghost(self.in_flight@.remove(idx as int));
        if self.aborting {
            return PartOutcome::Discarded;
        }
        let bytes = if idx == self.chunk_count - 1 {
            self.last_chunk_size
        } else {
            CHUNK_SIZE
        };
        let tag = match e_tag {
            Some(t) => t,
            None => String::new(),
        };
        let ghost old_recorded = self.recorded@;
        proof {
            assert(!old_recorded.contains(idx as int));
            lemma_len_subset(old_recorded, set_int_range(0, self.next_chunk_idx as int));
            assert(old_recorded.len() < self.chunk_count) by {
                assert(self.in_flight@.len() + old_recorded.len() + 1 == self.next_chunk_idx);
            }
            assert(old_recorded.len() * CHUNK_SIZE <= (self.chunk_count - 1) * CHUNK_SIZE)
                by (nonlinear_arith)
                requires
                    old_recorded.len() <= self.chunk_count - 1,
            ;
            assert((self.chunk_count - 1) * CHUNK_SIZE <= MAX_CHUNKS * CHUNK_SIZE)
                by (nonlinear_arith)
                requires
                    self.chunk_count <= MAX_CHUNKS,
            ;
            assert((old_recorded.len() - 1) * CHUNK_SIZE + CHUNK_SIZE == old_recorded.len()
                * CHUNK_SIZE) by (nonlinear_arith);
            assert(old_recorded.len() * CHUNK_SIZE + CHUNK_SIZE == (old_recorded.len() + 1)
                * CHUNK_SIZE) by (nonlinear_arith);
        }
        self.uploaded_bytes = self.uploaded_bytes + bytes;
        self.recorded = Ghost(old_recorded.insert(idx as int));
        let ghost old_parts = self.parts@;
        self.parts.push(PartRecord { part_number: (idx as i32) + 1, e_tag: tag });
        proof {
            assert(self.parts@.drop_last() =~= old_parts);
            assert forall|k: int|
                0 <= k < self.parts@.len() implies self.recorded@.contains(
                #[trigger] self.parts@[k].part_number - 1,
            ) by {
                if k < old_parts.len() {
                    assert(self.parts@[k] == old_parts[k]);
                }
            }
            assert forall|k1: int, k2: int|
                0 <= k1 < self.parts@.len() && 0 <= k2 < self.parts@.len() && k1 != k2
                    implies #[trigger] self.parts@[k1].part_number
                != #[trigger] self.parts@[k2].part_number by {
                if k1 < old_parts.len() && k2 < old_parts.len() {
                    assert(self.parts@[k1] == old_parts[k1]);
                    assert(self.parts@[k2] == old_parts[k2]);
                } else if k1 < old_parts.len() {
                    assert(self.parts@[k1] == old_parts[k1]);
                    assert(old_recorded.contains(old_parts[k1].part_number - 1));
                } else {
                    assert(self.parts@[k2] == old_parts[k2]);
                    assert(old_recorded.contains(old_parts[k2].part_number - 1));
                }
            }
        }
        PartOutcome::Recorded { bytes }
    }

    /// Reports that a part upload failed; `chunk_index` names its chunk when
    /// it is known. The first failure starts the abort: no further chunk is
    /// handed out and parts that finish later are dropped.
    pub fn on_part_failed(&mut self, chunk_index: Option<u64>) -> (outcome: FailureOutcome)
        requires
            old(self).wf(),
            old(self).active() > 0,
            chunk_index matches Some(i) ==> old(self).in_flight().contains(i as int),
        ensures
            final(self).wf(),
            forall|target: nat| #[trigger] Self::bounded_step(old(self), final(self), target),
            final(self).chunk_count() == old(self).chunk_count(),
            final(self).last_chunk_size() == old(self).last_chunk_size(),
            final(self).next_index() == old(self).next_index(),
            final(self).aborting(),
            final(self).active() == old(self).active() - 1,
            final(self).in_flight() == match chunk_index {
                Some(i) => old(self).in_flight().remove(i as int),
                None => old(self).in_flight(),
            },
            final(self).recorded() == old(self).recorded(),
            final(self).uploaded() == old(self).uploaded(),
            final(self).parts() == old(self).parts(),
            outcome == (if old(self).aborting() {
                FailureOutcome::AlreadyAborting
            } else {
                FailureOutcome::AbortStarted
            }),
    {
        if let Some(idx) = chunk_index {
            proof {
                lemma_int_range(0, self.next_chunk_idx as int);
            }
            self.in_flight_flags.set(idx as usize, false);
            self.in_flight = Ghost(self.in_flight@.remove(idx as int));
        }
        self.active_uploads = self.active_uploads - 1;
        if self.aborting {
            FailureOutcome::AlreadyAborting
        } else {
            self.aborting = true;
            FailureOutcome::AbortStarted
        }
    }

    /// Ends the upload once it is finished: the recorded parts, or
    /// `ScheduleError::Aborted` when a part failed.
    pub fn finish(self) -> (res: Result<Vec<PartRecord>, ScheduleError>)
        requires
            self.finished(),
        ensures
            self.aborting() ==> res == Err::<Vec<PartRecord>, ScheduleError>(
                ScheduleError::Aborted,
            ),
            !self.aborting() ==> (res matches Ok(parts) && parts@ == self.parts()),
    {
        if self.aborting {
            Err(ScheduleError::Aborted)
        } else {
            Ok(self.parts)
        }
    }
}

/// When a multipart upload finishes without a failure, every chunk was
/// recorded exactly once: the recorded chunks are exactly `0..chunk_count`,
/// there is one part per chunk with part numbers `1..=chunk_count`, no two
/// alike, and the bytes counted are those of all chunks together.
pub proof fn lemma_clean_finish_records_every_chunk(s: &UploadScheduler)
    requires
        s.wf(),
        s.finished(),
        !s.aborting(),
    ensures
        s.recorded() == set_int_range(0, s.chunk_count() as int),
        s.parts().len() == s.chunk_count(),
        forall|k: int|
            0 <= k < s.parts().len() ==> 1 <= #[trigger] s.parts()[k].part_number
                <= s.chunk_count(),
        forall|k1: int, k2: int|
            0 <= k1 < s.parts().len() && 0 <= k2 < s.parts().len() && k1 != k2
                ==> #[trigger] s.parts()[k1].part_number != #[trigger] s.parts()[k2].part_number,
        s.uploaded() == (s.chunk_count() - 1) * CHUNK_SIZE + s.last_chunk_size(),
{
    let n = s.chunk_count() as int;
    lemma_int_range(0, n);
    assert(s.in_flight().len() == 0);
    lemma_subset_equality(s.recorded(), set_int_range(0, n));
    assert(s.recorded().contains(n - 1));
    assert forall|k: int| 0 <= k < s.parts().len() implies 1 <= #[trigger] s.parts()[k].part_number
        <= s.chunk_count() by {
        assert(s.recorded().contains(s.parts()[k].part_number - 1));
    }
}

/// A multipart upload planned for `file_size` bytes that finishes without a
/// failure has counted exactly `file_size` bytes as uploaded.
pub proof fn lemma_clean_upload_covers_file(s: &UploadScheduler, file_size: u64)
    requires
        s.wf(),
        s.finished(),
        !s.aborting(),
        spec_plan_upload(file_size as nat) == Ok::<UploadPlan, PlanError>(
            UploadPlan::Multipart {
                chunk_count: s.chunk_count() as u64,
                last_chunk_size: s.last_chunk_size() as u64,
            },
        ),
    ensures
        s.uploaded() == file_size,
{
    lemma_clean_finish_records_every_chunk(s);
    lemma_plan_chunks_tile_file(file_size, s.chunk_count() as u64, s.last_chunk_size() as u64);
    let n = s.chunk_count() as int;
    assert((n - 1) * CHUNK_SIZE <= file_size) by (nonlinear_arith)
        requires
            (n - 1) * CHUNK_SIZE + s.last_chunk_size() == file_size,
    ;
    assert((n - 1) * CHUNK_SIZE >= 0) by (nonlinear_arith)
        requires
            n >= 1,
    ;
}

/// The upload always comes to an end: when no upload is in flight and no
/// chunk can be launched under any target, the scheduler is finished; and
/// once a part has failed, the scheduler is finished as soon as the last
/// upload in flight is reported back.
pub proof fn lemma_no_progress_means_finished(s: &UploadScheduler)
    requires
        s.wf(),
        s.active() == 0,
    ensures
        (forall|target: nat| target > 0 ==> !#[trigger] s.can_launch(target)) ==> s.finished(),
        s.aborting() ==> s.finished(),
{
    if !s.finished() {
        assert(s.can_launch(1));
    }
}

/// Over a whole run, active uploads never exceed the largest target: for
/// any run of scheduler states that starts with nothing active, where each
/// step respects the target read for it (as every method of the scheduler
/// ensures) and every target is at most `bound`, no state has more than
/// `bound` uploads active, and each upload that starts does so while fewer
/// than that step's target are active.
pub proof fn lemma_active_uploads_bounded(
    run: Seq<UploadScheduler>,
    targets: Seq<nat>,
    bound: nat,
)
    requires
        run.len() >= 1,
        targets.len() + 1 == run.len(),
        run[0].active() == 0,
        forall|i: int| 0 <= i < targets.len() ==> #[trigger] targets[i] <= bound,
        forall|i: int|
            0 <= i < targets.len() ==> #[trigger] UploadScheduler::bounded_step(
                &run[i],
                &run[i + 1],
                targets[i],
            ),
    ensures
        forall|i: int| 0 <= i < run.len() ==> #[trigger] run[i].active() <= bound,
        forall|i: int|
            0 <= i < targets.len() && run[i + 1].next_index() > #[trigger] run[i].next_index()
                ==> run[i].active() < targets[i],
{
    assert forall|i: int| 0 <= i < run.len() implies #[trigger] run[i].active() <= bound by {
        lemma_active_bounded_upto(run, targets, bound, i);
    }
    assert forall|i: int|
        0 <= i < targets.len() && run[i + 1].next_index() > #[trigger] run[i].next_index()
            implies run[i].active() < targets[i] by {
        assert(UploadScheduler::bounded_step(&run[i], &run[i + 1], targets[i]));
    }
}

proof fn lemma_active_bounded_upto(
    run: Seq<UploadScheduler>,
    targets: Seq<nat>,
    bound: nat,
    i: int,
)
    requires
        targets.len() + 1 == run.len(),
        0 <= i < run.len(),
        run[0].active() == 0,
        forall|k: int| 0 <= k < targets.len() ==> #[trigger] targets[k] <= bound,
        forall|k: int|
            0 <= k < targets.len() ==> #[trigger] UploadScheduler::bounded_step(
                &run[k],
                &run[k + 1],
                targets[k],
            ),
    ensures
        run[i].active() <= bound,
    decreases i,
{
    if i > 0 {
        let k = i - 1;
        lemma_active_bounded_upto(run, targets, bound, k);
        assert(UploadScheduler::bounded_step(&run[k], &run[k + 1], targets[k]));
        assert(targets[k] <= bound);
        assert(run[k + 1] == run[i]);
    }
}

/// While no part has failed, the chunks handed out so far are exactly
/// `0..next_index`, each either in flight or recorded and never both, and the
/// number of active uploads is the number in flight.
pub proof fn lemma_handed_out_chunks(s: &UploadScheduler)
    requires
        s.wf(),
        !s.aborting(),
    ensures
        s.in_flight().union(s.recorded()) == set_int_range(0, s.next_index() as int),
        s.in_flight().disjoint(s.recorded()),
        s.active() == s.in_flight().len(),
{
    let n = s.next_index() as int;
    lemma_int_range(0, n);
    vstd::set_lib::lemma_set_disjoint_lens(s.in_flight(), s.recorded());
    lemma_subset_equality(s.in_flight().union(s.recorded()), set_int_range(0, n));
}

} // verus!
