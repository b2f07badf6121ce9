use vstd::prelude::*;

verus! {

/// Share of `file_size` bytes that `uploaded` bytes make, in whole percent,
/// rounded down.
pub open spec fn spec_progress_percent(uploaded: nat, file_size: nat) -> nat {
    (uploaded * 100) / file_size
}

/// Percentage of the file uploaded so far, rounded down.
pub fn progress_percent(uploaded: u64, file_size: u64) -> (percent: u64)
    requires
        file_size > 0,
        uploaded * 100 <= u64::MAX,
    ensures
        percent == spec_progress_percent(uploaded as nat, file_size as nat),
        uploaded <= file_size ==> percent <= 100,
{
    proof {
        if uploaded <= file_size {
            assert((uploaded * 100) / (file_size as int) <= 100) by (nonlinear_arith)
                requires
                    uploaded <= file_size,
                    file_size > 0,
            ;
        }
    }
    uploaded * 100 / file_size
}

/// Number of frames of the progress spinner.
pub const SPINNER_FRAME_COUNT: usize = 10;

/// The spinner frame shown after frame `frame_idx`: the next one, wrapping
/// around to the first after the last.
pub fn next_spinner_frame(frame_idx: usize) -> (next: usize)
    requires
        frame_idx < SPINNER_FRAME_COUNT,
    ensures
        next == (frame_idx + 1) % (SPINNER_FRAME_COUNT as int),
        next < SPINNER_FRAME_COUNT,
{
    let mut next = frame_idx + 1;
    if next >= SPINNER_FRAME_COUNT {
        next = 0;
    }
    next
}

/// The spinner frame shown after `steps` ticks from the first frame.
pub open spec fn spinner_frame_after(steps: nat) -> nat
    decreases steps,
{
    if steps == 0 {
        0
    } else {
        (spinner_frame_after((steps - 1) as nat) + 1) % (SPINNER_FRAME_COUNT as nat)
    }
}

/// Over a whole run the spinner cycles through its frames: after `steps`
/// ticks it shows frame `steps % SPINNER_FRAME_COUNT`, always a valid frame.
pub proof fn lemma_spinner_cycles(steps: nat)
    ensures
        spinner_frame_after(steps) == steps % (SPINNER_FRAME_COUNT as nat),
        spinner_frame_after(steps) < SPINNER_FRAME_COUNT,
    decreases steps,
{
    if steps > 0 {
        lemma_spinner_cycles((steps - 1) as nat);
    }
}

/// For a file no larger than the largest multipart upload, and no more
/// bytes uploaded than the file has, the percentage can be computed without
/// overflow and is at most 100.
pub proof fn lemma_progress_of_any_upload(uploaded: u64, file_size: u64)
    requires
        0 < file_size <= 10000 * 8388608,
        uploaded <= file_size,
    ensures
        uploaded * 100 <= u64::MAX,
        spec_progress_percent(uploaded as nat, file_size as nat) <= 100,
{
    assert((uploaded * 100) / (file_size as int) <= 100) by (nonlinear_arith)
        requires
            uploaded <= file_size,
            file_size > 0,
    ;
}

} // verus!
