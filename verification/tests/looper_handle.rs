use looper_processor::looper_handle::{copy_looped_clip, LooperHandle, LooperOutput, LooperState};
use looper_processor::sample_buffer::SampleBuffer;
use looper_processor::scratch_pad::ScratchPad;

/// Runs one channel of input through the looper, as the audio thread does:
/// the output is what the looper plays (the dry signal is muted), and an
/// overdubbed frame gets the input added into the clip.
fn run(looper: &mut LooperHandle<f32>, input: &[f32]) -> Vec<f32> {
    let mut output = Vec::with_capacity(input.len());
    for &sample in input {
        let out = match looper.process(0, sample) {
            LooperOutput::Silent => 0.0,
            LooperOutput::Playback(s) => s,
            LooperOutput::Overdub(s) => {
                looper.write_overdub(0, s + sample);
                s
            }
        };
        output.push(out);
        looper.after_process();
    }
    output
}

fn ramp(n: usize) -> Vec<f32> {
    (0..n).map(|i| i as f32).collect()
}

fn prepared(max_len: usize) -> LooperHandle<f32> {
    let mut looper = LooperHandle::new();
    looper.prepare(1, max_len, 0.0);
    looper
}

fn assert_silent_for(looper: &mut LooperHandle<f32>, n: usize) {
    let output = run(looper, &vec![0.0; n]);
    assert_eq!(output, vec![0.0; n], "Looper was not silent");
}

#[test]
fn mod_test_looper_produces_silence_when_started() {
    let mut looper = prepared(441_000);
    let sine: Vec<f32> = (0..4410)
        .map(|i| (2.0 * std::f32::consts::PI * 440.0 * i as f32 / 44100.0).sin())
        .collect();
    let output = run(&mut looper, &sine);
    let rms = (output.iter().map(|s| s * s).sum::<f32>() / output.len() as f32).sqrt();
    assert_eq!(rms, 0.0);
}

fn record_and_playback(looper: &mut LooperHandle<f32>) {
    let input = ramp(100);
    looper.start_recording(None);
    let output = run(looper, &input);
    looper.stop_recording_audio_thread_only();
    assert_eq!(
        output,
        vec![0.0; 100],
        "While recording the looper wasn't silent"
    );

    let output = run(looper, &vec![0.0; 100]);
    assert_eq!(
        output, input,
        "After recording the looper didn't playback - or played back a different input"
    );

    let output = run(looper, &vec![0.0; 100]);
    assert_eq!(output, input, "The looper didn't playback its recording twice");

    looper.pause();
    let output = run(looper, &input);
    assert_eq!(output, vec![0.0; 100], "The looper wasn't silent after stopped");
}

#[test]
fn mod_test_looper_samples_at_start() {
    let mut looper = prepared(1000);
    record_and_playback(&mut looper);
    looper.clear(0.0);
    assert_silent_for(&mut looper, 1000);
}

#[test]
fn mod_test_looper_samples_at_edge() {
    // 100 frames per second and a 10 second scratch pad
    let mut looper = prepared(1000);
    // move the scratch pad 30 frames before its end (600 seconds minus 30 frames)
    let before = ramp(600 * 100 - 30);
    run(&mut looper, &before);
    assert_silent_for(&mut looper, 1000);

    // the recording goes round the end of the scratch pad
    record_and_playback(&mut looper);

    looper.clear(0.0);
    assert_silent_for(&mut looper, 1000);
}

#[test]
fn test_looper_overdub() {
    let mut looper = prepared(441_000);

    looper.start_recording(None);
    run(&mut looper, &vec![1.0; 100]);
    looper.stop_recording_allocating_loop();
    let output = run(&mut looper, &vec![0.0; 100]);
    assert_eq!(output, vec![1.0; 100], "Recording didn't work");

    assert_eq!(looper.start_recording(None), LooperState::Overdubbing);
    run(&mut looper, &vec![1.0; 100]);
    looper.stop_recording_allocating_loop();
    assert_eq!(looper.state(), LooperState::Playing);

    let output = run(&mut looper, &vec![0.0; 100]);
    assert_eq!(output, vec![2.0; 100], "Overdub didn't work");
}

#[test]
fn test_looper_with_quantization_will_wait_until_a_beat() {
    // 100 frames per second at 60 bpm: a beat is 100 frames, a bar 400
    let mut looper = prepared(1000);
    // one beat of audio
    run(&mut looper, &ramp(100));

    // the closest bar start to beat 1 is beat 4, 300 frames ahead
    assert_eq!(looper.start_recording(Some(300)), LooperState::RecordingScheduled);

    // three more beats of silence
    assert_silent_for(&mut looper, 300);
    assert_eq!(looper.state(), LooperState::Recording);

    let recorded = ramp(200);
    run(&mut looper, &recorded);
    looper.stop_recording_allocating_loop();
    assert_eq!(looper.state(), LooperState::Playing);

    let output = run(&mut looper, &vec![0.0; 200]);
    assert_eq!(looper.state(), LooperState::Playing);
    assert_eq!(output, recorded, "After recording the looper didn't playback");
}

#[test]
fn test_record_button_cycle_and_play_button() {
    let mut looper = prepared(16);
    assert_eq!(looper.state(), LooperState::Empty);
    assert!(!looper.is_recording());
    looper.toggle_recording(None);
    assert_eq!(looper.state(), LooperState::Recording);
    assert!(looper.is_recording());
    assert!(looper.is_playing_back());
    run(&mut looper, &[1.0, 2.0, 3.0]);
    assert_eq!(looper.num_samples(), 3);
    looper.toggle_recording(None);
    assert_eq!(looper.state(), LooperState::Playing);
    assert_eq!(looper.playhead(), 0);
    assert_eq!(looper.looper_clip().num_samples(), 3);
    looper.toggle_recording(None);
    assert_eq!(looper.state(), LooperState::Overdubbing);
    looper.toggle_recording(None);
    assert_eq!(looper.state(), LooperState::Playing);
    looper.toggle_playback();
    assert_eq!(looper.state(), LooperState::Paused);
    assert!(!looper.is_playing_back());
    looper.toggle_playback();
    assert_eq!(looper.state(), LooperState::Playing);
    looper.play();
    assert_eq!(looper.state(), LooperState::Playing);
}

#[test]
fn test_recording_stops_when_the_scratch_pad_is_full() {
    let mut looper = prepared(4);
    looper.start_recording(None);
    let output = run(&mut looper, &[1.0, 2.0, 3.0, 4.0, 5.0]);
    assert_eq!(output, vec![0.0; 5]);
    // the fifth frame did not fit: the loop of four frames plays; the
    // scratch pad went round, so the fifth frame took the place of the first
    assert_eq!(looper.state(), LooperState::Playing);
    assert_eq!(looper.num_samples(), 4);
    let output = run(&mut looper, &[0.0; 4]);
    assert_eq!(output, vec![5.0, 2.0, 3.0, 4.0]);
}

#[test]
fn test_looper_state_numbers() {
    for n in 0..6 {
        let state = LooperState::from_usize(n).unwrap();
        assert_eq!(state.to_usize(), n);
    }
    assert_eq!(LooperState::from_usize(6), None);
    assert_eq!(LooperState::from_usize(5), Some(LooperState::RecordingScheduled));
}

#[test]
fn test_copy_looped_clip_wraps_round() {
    let scratch = SampleBuffer::from_channels(vec![vec![0, 1, 2, 3, 4]], 5);
    let clip = copy_looped_clip(&scratch, 3, 4);
    assert_eq!(clip.num_channels(), 1);
    assert_eq!(clip.num_samples(), 4);
    let values: Vec<i32> = (0..4).map(|i| clip.get(0, i)).collect();
    assert_eq!(values, vec![3, 4, 0, 1]);
}

#[test]
fn test_scratch_pad_is_circular() {
    let mut pad = ScratchPad::new(SampleBuffer::filled_with(2, 3, 0u8));
    assert_eq!(pad.max_len(), 3);
    for frame in 1..=4u8 {
        pad.set(0, frame);
        pad.set(1, frame * 10);
        pad.after_process();
    }
    assert_eq!(pad.cursor(), 4);
    // the fourth frame overwrote the first
    assert_eq!(pad.buffer().get(0, 0), 4);
    assert_eq!(pad.buffer().get(1, 0), 40);
    assert_eq!(pad.buffer().get(0, 1), 2);
    assert_eq!(pad.buffer().get(0, 2), 3);
}

#[test]
fn test_sample_buffer() {
    let mut buffer = SampleBuffer::filled_with(2, 3, 7i16);
    assert_eq!(buffer.num_channels(), 2);
    assert_eq!(buffer.num_samples(), 3);
    assert_eq!(buffer.get(1, 2), 7);
    buffer.set(1, 2, -1);
    assert_eq!(buffer.get(1, 2), -1);
    assert_eq!(buffer.get(0, 2), 7);
    buffer.fill(0);
    assert_eq!(buffer.get(1, 2), 0);
    let empty: SampleBuffer<i16> = SampleBuffer::new();
    assert_eq!(empty.num_channels(), 0);
    assert_eq!(empty.num_samples(), 0);
}

#[test]
fn test_process_frame_plays_back_every_channel() {
    let mut looper: LooperHandle<i32> = LooperHandle::new();
    looper.prepare(2, 8, 0);
    looper.start_recording(None);
    for k in 0..3 {
        let outputs = looper.process_frame(&vec![k, 100 + k]);
        assert_eq!(outputs, vec![LooperOutput::Silent, LooperOutput::Silent]);
        looper.after_process();
    }
    looper.stop_recording_allocating_loop();
    for k in 0..6 {
        let outputs = looper.process_frame(&vec![-1, -1]);
        assert_eq!(
            outputs,
            vec![
                LooperOutput::Playback(k % 3),
                LooperOutput::Playback(100 + k % 3)
            ]
        );
        looper.after_process();
    }
}

#[test]
fn test_can_press_record() {
    let mut looper = prepared(8);
    assert!(looper.can_press_record(None));
    assert!(looper.can_press_record(Some(100)));
    assert!(looper.can_press_record(Some(i32::MAX)));
    run(&mut looper, &[0.0]);
    // the scratch cursor is 1: a start 1 + i32::MAX frames away overflows
    assert!(!looper.can_press_record(Some(i32::MAX)));
    assert!(looper.can_press_record(Some(i32::MIN)));
    looper.start_recording(None);
    run(&mut looper, &[1.0, 2.0]);
    assert!(looper.can_press_record(None));
    looper.toggle_recording(None);
    assert_eq!(looper.state(), LooperState::Playing);
    assert!(looper.can_press_record(Some(i32::MIN)));
}
