use looper_processor::recording_state::{
    wrap_quantized_position, LooperProcessorHandle, LooperProcessorState,
    LooperQuantizationModeType, RecordingState,
};
use looper_processor::sample_buffer::SampleBuffer;

#[test]
fn state_test_from_atomic() {
    let state = 0;
    let state = RecordingState::from_usize(state).unwrap();
    assert_eq!(state, RecordingState::Empty);
}

#[test]
fn test_recording_state_numbers_round_trip() {
    assert_eq!(RecordingState::from_usize(1), Some(RecordingState::Recording));
    assert_eq!(RecordingState::from_usize(2), Some(RecordingState::Playing));
    assert_eq!(RecordingState::from_usize(3), None);
    assert!(RecordingState::Empty.is_empty());
    assert!(!RecordingState::Playing.is_empty());
    assert_eq!(
        LooperQuantizationModeType::from_usize(0),
        Some(LooperQuantizationModeType::NoQuantization)
    );
    assert_eq!(LooperQuantizationModeType::from_usize(7), None);
}

#[test]
fn test_wrap_quantized_position() {
    // a position at the start of the loop
    assert_eq!(wrap_quantized_position(0, 10_000), 0);
    // four beats of 1000 frames
    assert_eq!(wrap_quantized_position(4000, 10_000), 4000);
    // 9000 + 3000 frames goes round the end of a 10000 frame clip
    assert_eq!(wrap_quantized_position(12_000, 10_000), 2000);
    // a negative position -k gives (n + k) % n
    assert_eq!(wrap_quantized_position(-100, 10_000), 100);
}

fn state_with_clip(len: usize) -> LooperProcessorState<f32> {
    let mut state = LooperProcessorState::new();
    state.set_clip(SampleBuffer::filled_with(1, len, 0.0));
    state
}

#[test]
fn test_on_tick_records_and_plays_a_loop() {
    let mut state = state_with_clip(10);
    assert_eq!(state.quantization_mode(), LooperQuantizationModeType::SnapClosest);
    // pressing record at cursor 0 without quantization starts recording at 0
    state.on_tick(true, 0, 0);
    assert_eq!(state.recording_state(), RecordingState::Recording);
    assert_eq!(state.looper_cursor(), 1);
    for _ in 0..3 {
        let cursor = state.looper_cursor();
        state.on_tick(true, cursor, cursor);
    }
    assert_eq!(state.looper_cursor(), 4);
    assert_eq!(state.num_samples(), 4);
    // releasing record at cursor 4 ends the loop there
    state.on_tick(false, 4, 4);
    assert_eq!(state.recording_state(), RecordingState::Playing);
    assert_eq!(state.end_cursor(), 4);
    assert_eq!(state.num_samples(), 4);
    // the cursor went to 5, which is past the end: next tick jumps to start
    assert_eq!(state.looper_cursor(), 0);
    assert_eq!(state.loop_indices(), vec![0, 1, 2, 3]);
}

#[test]
fn test_loop_going_round_the_clip_end() {
    let mut state = state_with_clip(10);
    // start at 8, loop of 4 frames: 8, 9, 0, 1
    state.on_tick(true, 8, 8);
    assert_eq!(state.recording_state(), RecordingState::Recording);
    // releasing record with the cursor at the quantized end plays the loop
    state.on_tick(false, 2, 2);
    assert_eq!(state.recording_state(), RecordingState::Playing);
    assert_eq!(state.end_cursor(), 2);
    let mut state = state_with_clip(10);
    state.on_tick(true, 0, 8);
    // the cursor has not reached the quantized start: still empty
    assert_eq!(state.recording_state(), RecordingState::Empty);
}

#[test]
fn test_clear_empties_the_loop() {
    let mut state = state_with_clip(4);
    state.on_tick(true, 0, 0);
    state.clear(0.0);
    assert_eq!(state.recording_state(), RecordingState::Empty);
    assert_eq!(state.num_samples(), 0);
    assert_eq!(state.looper_cursor(), 0);
    assert!(state.loop_indices().is_empty());
}

#[test]
fn test_processor_handle_flags() {
    let mut handle = LooperProcessorHandle::new(state_with_clip(8));
    assert!(!handle.is_recording());
    assert!(!handle.is_playing_back());
    handle.toggle_recording();
    assert!(handle.is_recording());
    handle.toggle_recording();
    assert!(!handle.is_recording());
    assert!(handle.is_playing_back());
    handle.toggle_playback();
    assert!(!handle.is_playing_back());
    handle.toggle_playback();
    assert!(handle.is_playing_back());
    handle.clear();
    assert!(!handle.is_recording());
    assert!(!handle.is_playing_back());
    handle.set_should_clear(true);
}

#[test]
fn test_force_stop_if_overflowing() {
    let mut handle = LooperProcessorHandle::new(state_with_clip(4));
    handle.start_recording();
    // record from 0; the cursor reaches 3 = clip length - 1
    handle.state_mut().on_tick(true, 0, 0);
    handle.state_mut().on_tick(true, 1, 1);
    handle.state_mut().on_tick(true, 2, 2);
    assert_eq!(handle.num_samples(), 3);
    assert!(!handle.force_stop_if_overflowing(3));
    assert!(!handle.is_recording());
    assert!(handle.is_playing_back());
    assert_eq!(handle.state().recording_state(), RecordingState::Playing);
    assert_eq!(handle.state().end_cursor(), 2);
    assert_eq!(handle.playhead(), 0);
    // a looper that is not recording may go on
    assert!(handle.force_stop_if_overflowing(3));
}

#[test]
fn test_playing_cursor_stays_in_the_loop() {
    let mut state = state_with_clip(10);
    state.on_tick(true, 0, 0);
    for _ in 0..3 {
        let cursor = state.looper_cursor();
        state.on_tick(true, cursor, cursor);
    }
    state.on_tick(false, 4, 4);
    assert_eq!(state.recording_state(), RecordingState::Playing);
    let mut seen = Vec::new();
    for _ in 0..8 {
        let cursor = state.looper_cursor();
        assert!(cursor < 4);
        seen.push(cursor);
        state.on_tick(false, cursor, cursor);
    }
    assert_eq!(seen, vec![0, 1, 2, 3, 0, 1, 2, 3]);
}
