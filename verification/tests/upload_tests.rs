use s3_cli::controller::{
    ConcurrencyController, NewBaseline, TickStart, Trend, INITIAL_CONCURRENCY, MAX_CONCURRENCY,
};
use s3_cli::parts::{assemble_parts, sort_parts, AssemblyError};
use s3_cli::progress::{next_spinner_frame, progress_percent};
use s3_cli::scheduler::{FailureOutcome, PartOutcome, PartRecord, ScheduleError, UploadScheduler};
use s3_cli::upload_plan::{
    chunk_job, chunk_size_for, plan_upload, PlanError, UploadPlan, CHUNK_SIZE, MAX_CHUNKS,
    SINGLE_PUT_LIMIT,
};

const MIB: u64 = 1024 * 1024;

#[test]
fn empty_file_is_refused() {
    assert_eq!(plan_upload(0), Err(PlanError::EmptyFile));
}

#[test]
fn small_files_go_in_one_request() {
    assert_eq!(plan_upload(1), Ok(UploadPlan::Single));
    assert_eq!(plan_upload(SINGLE_PUT_LIMIT), Ok(UploadPlan::Single));
    assert_eq!(SINGLE_PUT_LIMIT, 50 * MIB);
}

#[test]
fn just_over_the_limit_is_multipart() {
    assert_eq!(
        plan_upload(50 * MIB + 1),
        Ok(UploadPlan::Multipart { chunk_count: 7, last_chunk_size: 2 * MIB + 1 })
    );
}

#[test]
fn exact_multiple_of_chunk_size_has_full_last_chunk() {
    assert_eq!(
        plan_upload(80 * MIB),
        Ok(UploadPlan::Multipart { chunk_count: 10, last_chunk_size: 8 * MIB })
    );
}

#[test]
fn too_many_chunks_is_refused() {
    assert_eq!(
        plan_upload(MAX_CHUNKS * CHUNK_SIZE),
        Ok(UploadPlan::Multipart { chunk_count: MAX_CHUNKS, last_chunk_size: CHUNK_SIZE })
    );
    assert_eq!(
        plan_upload(MAX_CHUNKS * CHUNK_SIZE + 1),
        Err(PlanError::TooManyChunks { chunk_count: MAX_CHUNKS + 1 })
    );
    assert_eq!(
        plan_upload(u64::MAX),
        Err(PlanError::TooManyChunks { chunk_count: u64::MAX / CHUNK_SIZE + 1 })
    );
}

#[test]
fn chunk_sizes() {
    assert_eq!(chunk_size_for(0, 7, 123), CHUNK_SIZE);
    assert_eq!(chunk_size_for(5, 7, 123), CHUNK_SIZE);
    assert_eq!(chunk_size_for(6, 7, 123), 123);
    assert_eq!(chunk_size_for(0, 1, 5), 5);
}

#[test]
fn chunk_jobs_have_part_numbers_and_offsets() {
    let job = chunk_job(3, 7, 100);
    assert_eq!(job.index, 3);
    assert_eq!(job.part_number, 4);
    assert_eq!(job.offset, 3 * CHUNK_SIZE);
    assert_eq!(job.size, CHUNK_SIZE);
    let last = chunk_job(6, 7, 100);
    assert_eq!(last.part_number, 7);
    assert_eq!(last.size, 100);
}

#[test]
fn chunks_tile_the_file() {
    for file_size in [50 * MIB + 1, 80 * MIB, 123_456_789, 99 * MIB + 17] {
        match plan_upload(file_size) {
            Ok(UploadPlan::Multipart { chunk_count, last_chunk_size }) => {
                let mut expected_offset = 0;
                let mut total = 0;
                for i in 0..chunk_count {
                    let job = chunk_job(i, chunk_count, last_chunk_size);
                    assert_eq!(job.offset, expected_offset);
                    assert!(job.size > 0 && job.size <= CHUNK_SIZE);
                    expected_offset += job.size;
                    total += job.size;
                }
                assert_eq!(total, file_size);
                assert_eq!(expected_offset, file_size);
            }
            other => panic!("unexpected plan {:?}", other),
        }
    }
}

#[test]
fn scheduler_launches_in_order_within_target() {
    let mut s = UploadScheduler::new(3, 10);
    let a = s.try_launch(2).unwrap();
    let b = s.try_launch(2).unwrap();
    assert_eq!((a.index, b.index), (0, 1));
    assert!(s.try_launch(2).is_none());
    assert_eq!(s.active_uploads(), 2);
    assert!(s.is_in_flight(0) && s.is_in_flight(1) && !s.is_in_flight(2));
    assert_eq!(s.on_part_uploaded(1, Some("b".to_string())), PartOutcome::Recorded { bytes: CHUNK_SIZE });
    let c = s.try_launch(2).unwrap();
    assert_eq!((c.index, c.part_number, c.size), (2, 3, 10));
    assert!(s.try_launch(2).is_none());
    assert_eq!(s.on_part_uploaded(2, None), PartOutcome::Recorded { bytes: 10 });
    assert!(!s.is_finished());
    assert_eq!(s.on_part_uploaded(0, Some("a".to_string())), PartOutcome::Recorded { bytes: CHUNK_SIZE });
    assert!(s.is_finished());
    assert_eq!(s.uploaded_bytes(), 2 * CHUNK_SIZE + 10);
    let parts = s.finish().unwrap();
    let numbers: Vec<i32> = parts.iter().map(|p| p.part_number).collect();
    assert_eq!(numbers, vec![2, 3, 1]);
    assert_eq!(parts[1].e_tag, "");
    assert_eq!(parts[2].e_tag, "a");
}

#[test]
fn clean_finish_records_every_chunk_once() {
    let mut s = UploadScheduler::new(5, CHUNK_SIZE);
    let mut in_flight = Vec::new();
    loop {
        while let Some(job) = s.try_launch(3) {
            in_flight.push(job.index);
        }
        if s.is_finished() {
            break;
        }
        let idx = in_flight.remove(0);
        s.on_part_uploaded(idx, Some(format!("tag{}", idx)));
    }
    assert_eq!(s.uploaded_bytes(), 5 * CHUNK_SIZE);
    let parts = s.finish().unwrap();
    let mut numbers: Vec<i32> = parts.iter().map(|p| p.part_number).collect();
    numbers.sort();
    assert_eq!(numbers, vec![1, 2, 3, 4, 5]);
}

#[test]
fn first_failure_aborts_and_later_parts_are_dropped() {
    let mut s = UploadScheduler::new(4, 7);
    s.try_launch(2).unwrap();
    s.try_launch(2).unwrap();
    assert_eq!(s.on_part_failed(Some(0)), FailureOutcome::AbortStarted);
    assert!(s.is_aborting());
    assert!(s.try_launch(8).is_none());
    assert_eq!(s.on_part_uploaded(1, Some("late".to_string())), PartOutcome::Discarded);
    assert_eq!(s.uploaded_bytes(), 0);
    assert_eq!(s.active_uploads(), 0);
    // Chunks remain unlaunched, yet the failed upload is over.
    assert_eq!(s.next_chunk_index(), 2);
    assert!(s.is_finished());
    assert_eq!(s.finish(), Err(ScheduleError::Aborted));
}

#[test]
fn aborting_scheduler_waits_for_uploads_in_flight() {
    let mut s = UploadScheduler::new(5, 7);
    s.try_launch(3).unwrap();
    s.try_launch(3).unwrap();
    assert_eq!(s.on_part_failed(Some(1)), FailureOutcome::AbortStarted);
    assert!(!s.is_finished());
    assert_eq!(s.on_part_uploaded(0, None), PartOutcome::Discarded);
    assert!(s.is_finished());
}

#[test]
fn abort_after_all_launched_finishes_with_error() {
    let mut s = UploadScheduler::new(2, 7);
    s.try_launch(4).unwrap();
    s.try_launch(4).unwrap();
    assert_eq!(s.on_part_failed(None), FailureOutcome::AbortStarted);
    assert_eq!(s.on_part_failed(Some(1)), FailureOutcome::AlreadyAborting);
    assert!(s.is_finished());
    assert_eq!(s.finish(), Err(ScheduleError::Aborted));
}

#[test]
fn parts_are_sorted_for_completion() {
    let parts = vec![
        PartRecord { part_number: 3, e_tag: "c".to_string() },
        PartRecord { part_number: 1, e_tag: "a".to_string() },
        PartRecord { part_number: 2, e_tag: "b".to_string() },
    ];
    let sorted = assemble_parts(parts, 3).unwrap();
    let tags: Vec<&str> = sorted.iter().map(|p| p.e_tag.as_str()).collect();
    assert_eq!(tags, vec!["a", "b", "c"]);
    assert_eq!(sort_parts(Vec::new()), Vec::new());
}

#[test]
fn wrong_part_count_is_refused() {
    let parts = vec![PartRecord { part_number: 2, e_tag: "b".to_string() }];
    assert_eq!(
        assemble_parts(parts, 3),
        Err(AssemblyError::PartCountMismatch { expected: 3, actual: 1 })
    );
}

#[test]
fn progress_and_spinner() {
    assert_eq!(progress_percent(0, 200), 0);
    assert_eq!(progress_percent(199, 200), 99);
    assert_eq!(progress_percent(200, 200), 100);
    assert_eq!(progress_percent(1, 3), 33);
    assert_eq!(next_spinner_frame(0), 1);
    assert_eq!(next_spinner_frame(9), 0);
}

#[test]
fn controller_probes_up_first_then_cools_down() {
    let mut c = ConcurrencyController::new(INITIAL_CONCURRENCY, MAX_CONCURRENCY);
    assert_eq!(c.begin_tick(0, 1000), TickStart::Measure);
    assert!(!c.observe_window(4, true));
    assert_eq!(c.adjust(Trend::NoBaseline), NewBaseline::Smoothed);
    assert_eq!(c.current_target(), 5);
    assert_eq!(c.begin_tick(0, 1000), TickStart::CoolingDown);
    assert_eq!(c.begin_tick(0, 1000), TickStart::Measure);
}

#[test]
fn controller_records_best_after_stable_windows() {
    let mut c = ConcurrencyController::new(4, 32);
    assert!(!c.observe_window(4, true));
    assert_eq!(c.stable_windows(), 1);
    assert_eq!(c.adjust(Trend::Steady), NewBaseline::Smoothed);
    assert!(c.observe_window(3, true));
    assert_eq!(c.best_target(), 4);
    assert!(!c.observe_window(2, true));
}

#[test]
fn controller_turns_around_on_a_fall_and_returns_to_best_on_collapse() {
    let mut c = ConcurrencyController::new(4, 32);
    c.adjust(Trend::Rise);
    assert_eq!(c.current_target(), 5);
    c.begin_tick(0, 10);
    c.adjust(Trend::Fall { below_best_floor: false });
    assert_eq!(c.current_target(), 4);
    c.begin_tick(0, 10);
    c.adjust(Trend::Rise);
    assert_eq!(c.current_target(), 3);
    c.begin_tick(0, 10);
    assert_eq!(c.adjust(Trend::Fall { below_best_floor: true }), NewBaseline::Best);
    assert_eq!(c.current_target(), 4);
}

#[test]
fn controller_stays_within_bounds() {
    let mut c = ConcurrencyController::new(2, 3);
    c.adjust(Trend::Fall { below_best_floor: false });
    assert_eq!(c.current_target(), 2);
    c.adjust(Trend::Rise);
    assert_eq!(c.current_target(), 2);
    c.adjust(Trend::NoBaseline);
    c.adjust(Trend::NoBaseline);
    c.adjust(Trend::NoBaseline);
    assert_eq!(c.current_target(), 3);
}

#[test]
fn controller_settles_on_best_near_the_end() {
    let mut c = ConcurrencyController::new(4, 32);
    c.adjust(Trend::NoBaseline);
    c.begin_tick(0, 100);
    assert_eq!(c.begin_tick(80, 100), TickStart::Settled { target: 4 });
    assert_eq!(c.current_target(), 4);
    assert_eq!(c.begin_tick(79, 100), TickStart::Measure);
}

#[test]
fn active_uploads_never_exceed_the_largest_target() {
    let targets = [1usize, 3, 2, 3, 1, 2, 3, 3];
    let mut s = UploadScheduler::new(12, 5);
    let mut in_flight: Vec<u64> = Vec::new();
    let mut step = 0;
    while !s.is_finished() {
        let target = targets[step % targets.len()];
        let before = s.active_uploads();
        if let Some(job) = s.try_launch(target) {
            assert!(before < target);
            in_flight.push(job.index);
        } else if !in_flight.is_empty() {
            let idx = in_flight.remove(0);
            s.on_part_uploaded(idx, None);
        }
        assert!(s.active_uploads() <= 3);
        step += 1;
    }
    assert_eq!(s.finish().unwrap().len(), 12);
}
