use vstd::prelude::*;

verus! {

/// Frames in one cycle of the simulated two-talker scene.
pub const MOCK_SCENE_CYCLE_FRAMES: u64 = 200;

/// Frames over which a simulated talker fades in or out.
pub const MOCK_SCENE_RAMP_FRAMES: u64 = 6;

/// The loudness of a talker that speaks in frames `start..end`, in steps
/// of 1/`MOCK_SCENE_RAMP_FRAMES`: silent outside the segment, rising one
/// step per frame over its first frames, falling one step per frame over
/// its last ones, full in between.
pub open spec fn spec_segment_level(frame_index: u64, start: u64, end: u64) -> nat {
    if frame_index < start || frame_index >= end {
        0
    } else if frame_index < start + MOCK_SCENE_RAMP_FRAMES {
        (frame_index - start + 1) as nat
    } else if frame_index >= (if end >= MOCK_SCENE_RAMP_FRAMES {
        end - MOCK_SCENE_RAMP_FRAMES
    } else {
        0
    }) {
        (end - frame_index) as nat
    } else {
        MOCK_SCENE_RAMP_FRAMES as nat
    }
}

/// The loudness step of a talker in a frame (see `spec_segment_level`);
/// the gain is the level divided by `MOCK_SCENE_RAMP_FRAMES`.
pub fn segment_level(frame_index: u64, start: u64, end: u64) -> (r: u64)
    requires
        start + MOCK_SCENE_RAMP_FRAMES <= u64::MAX,
    ensures
        r == spec_segment_level(frame_index, start, end),
{
    if frame_index < start || frame_index >= end {
        return 0;
    }
    let fade_in_end = start + MOCK_SCENE_RAMP_FRAMES;
    if frame_index < fade_in_end {
        return frame_index - start + 1;
    }
    let fade_out_start = end.saturating_sub(MOCK_SCENE_RAMP_FRAMES);
    if frame_index >= fade_out_start {
        return end - frame_index;
    }
    MOCK_SCENE_RAMP_FRAMES
}

/// A talker's level never exceeds full loudness, and is zero outside the
/// talker's segment.
pub proof fn lemma_segment_level_bounded(frame_index: u64, start: u64, end: u64)
    requires
        start + MOCK_SCENE_RAMP_FRAMES <= end,
    ensures
        spec_segment_level(frame_index, start, end) <= MOCK_SCENE_RAMP_FRAMES,
        (frame_index < start || frame_index >= end) ==> spec_segment_level(
            frame_index,
            start,
            end,
        ) == 0,
        (start <= frame_index < end) ==> spec_segment_level(frame_index, start, end) >= 1,
{
}

/// Where a captured frame falls in the scene's cycle: sequence numbers
/// start at 1.
pub fn mock_scene_frame_index(sequence: u64) -> (r: u64)
    requires
        sequence >= 1,
    ensures
        r == (sequence - 1) % MOCK_SCENE_CYCLE_FRAMES as int,
{
    (sequence - 1) % MOCK_SCENE_CYCLE_FRAMES
}

/// The near talker of the scene speaks in frames 90..170 of each cycle.
pub fn local_talker_level(frame_index: u64) -> (r: u64)
    ensures
        r == spec_segment_level(frame_index, 90, 170),
{
    segment_level(frame_index, 90, 170)
}

/// The far talker speaks in frames 20..90 and 130..200 of each cycle; in
/// the overlap the louder segment counts.
pub fn peer_talker_level(frame_index: u64) -> (r: u64)
    ensures
        r == if spec_segment_level(frame_index, 20, 90) >= spec_segment_level(
            frame_index,
            130,
            200,
        ) {
            spec_segment_level(frame_index, 20, 90)
        } else {
            spec_segment_level(frame_index, 130, 200)
        },
{
    let a = segment_level(frame_index, 20, 90);
    let b = segment_level(frame_index, 130, 200);
    if a >= b {
        a
    } else {
        b
    }
}

/// Whole frames in a delay of `delay_ms` (frames of at least 1 ms).
pub fn delay_frames(delay_ms: u16, frame_ms: u16) -> (r: usize)
    ensures
        r == delay_ms as int / (if frame_ms == 0 {
            1
        } else {
            frame_ms as int
        }),
{
    let f: u16 = if frame_ms == 0 {
        1
    } else {
        frame_ms
    };
    (delay_ms / f) as usize
}

/// Whole frames in a span of `span_ms`, at least one: the delay of the
/// mock transport, and the frames of the aligner's coarse search window.
pub fn whole_frames_at_least_one(span_ms: u16, frame_ms: u16) -> (r: usize)
    ensures
        r == if delay_frames_spec(span_ms, frame_ms) == 0 {
            1
        } else {
            delay_frames_spec(span_ms, frame_ms)
        },
{
    let d = delay_frames(span_ms, frame_ms);
    if d == 0 {
        1
    } else {
        d
    }
}

/// Whole frames in a delay (see `delay_frames`).
pub open spec fn delay_frames_spec(delay_ms: u16, frame_ms: u16) -> int {
    delay_ms as int / (if frame_ms == 0 {
        1
    } else {
        frame_ms as int
    })
}

/// How many peer frames the aligner keeps to search for the delay: the
/// frames of the coarse search window (at least one), plus the jitter
/// buffer, plus one.
pub fn sync_history_frames(coarse_search_ms: u16, frame_ms: u16, jitter_buffer_frames: u16) -> (r:
    usize)
    ensures
        r == (if delay_frames_spec(coarse_search_ms, frame_ms) == 0 {
            1
        } else {
            delay_frames_spec(coarse_search_ms, frame_ms)
        }) + jitter_buffer_frames + 1,
{
    let search = whole_frames_at_least_one(coarse_search_ms, frame_ms);
    search + jitter_buffer_frames as usize + 1
}

} // verus!
