use ek_dual_mic::schedule::{
    delay_frames, local_talker_level, mock_scene_frame_index, peer_talker_level, segment_level,
    sync_history_frames, whole_frames_at_least_one, MOCK_SCENE_CYCLE_FRAMES,
    MOCK_SCENE_RAMP_FRAMES,
};

#[test]
fn segment_level_ramps_in_and_out() {
    assert_eq!(segment_level(19, 20, 90), 0);
    assert_eq!(segment_level(20, 20, 90), 1);
    assert_eq!(segment_level(25, 20, 90), MOCK_SCENE_RAMP_FRAMES);
    assert_eq!(segment_level(50, 20, 90), MOCK_SCENE_RAMP_FRAMES);
    assert_eq!(segment_level(84, 20, 90), 6);
    assert_eq!(segment_level(89, 20, 90), 1);
    assert_eq!(segment_level(90, 20, 90), 0);
}

#[test]
fn talkers_alternate_over_the_cycle() {
    assert_eq!(mock_scene_frame_index(1), 0);
    assert_eq!(mock_scene_frame_index(MOCK_SCENE_CYCLE_FRAMES + 5), 4);
    assert_eq!(local_talker_level(100), 6);
    assert_eq!(peer_talker_level(100), 0);
    assert_eq!(peer_talker_level(150), 6);
    assert_eq!(local_talker_level(10), 0);
    assert_eq!(peer_talker_level(10), 0);
}

#[test]
fn frame_counts_from_milliseconds() {
    assert_eq!(delay_frames(20, 10), 2);
    assert_eq!(delay_frames(5, 10), 0);
    assert_eq!(delay_frames(20, 0), 20);
    assert_eq!(whole_frames_at_least_one(5, 10), 1);
    assert_eq!(whole_frames_at_least_one(35, 10), 3);
    assert_eq!(sync_history_frames(30, 10, 3), 7);
}
