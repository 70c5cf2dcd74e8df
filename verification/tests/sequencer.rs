use looper_processor::sample_buffer::SampleBuffer;
use looper_processor::sequencer::{
    build_sequence, is_playable_output, run_sequencer, LoopSequencerOutput, LoopSequencerParams,
    LoopSequencerProcessor, SequencerFrame, VirtualLoopSection,
};

#[test]
fn test_build_sequence_from_draws() {
    let params = LoopSequencerParams {
        num_slices: 4,
        sequence_length: 8,
        num_samples: 400,
    };
    let draws = vec![0, 5, 2, 7, 4, 1, 6, 3];
    let output = build_sequence(&params, &draws);
    assert_eq!(output.sequence_step_size, 50);
    let starts: Vec<usize> = output.sequence.iter().map(|s| s.start).collect();
    assert_eq!(starts, vec![0, 100, 200, 300, 0, 100, 200, 300]);
    // each section is cut to the step length
    assert!(output.sequence.iter().all(|s| s.end == s.start + 50));
}

#[test]
fn test_build_sequence_keeps_short_slices() {
    // 4 slices of 25 frames, 2 steps of 50 frames
    let params = LoopSequencerParams {
        num_slices: 4,
        sequence_length: 2,
        num_samples: 100,
    };
    let output = build_sequence(&params, &vec![3, 1]);
    assert_eq!(output.sequence_step_size, 50);
    assert_eq!(
        output.sequence,
        vec![
            VirtualLoopSection { start: 75, end: 100 },
            VirtualLoopSection { start: 25, end: 50 },
        ]
    );
}

#[test]
fn test_empty_sequences() {
    let params = LoopSequencerParams {
        num_slices: 0,
        sequence_length: 4,
        num_samples: 100,
    };
    let output = run_sequencer(&params);
    assert!(output.sequence.is_empty());
    assert_eq!(output.sequence_step_size, 0);
    let params = LoopSequencerParams {
        num_slices: 4,
        sequence_length: 0,
        num_samples: 100,
    };
    let output = run_sequencer(&params);
    assert!(output.sequence.is_empty());
    assert_eq!(output.sequence_step_size, 0);
}

#[test]
fn test_run_sequencer_picks_slices() {
    let params = LoopSequencerParams {
        num_slices: 5,
        sequence_length: 16,
        num_samples: 1000,
    };
    let output = run_sequencer(&params);
    assert_eq!(output.sequence.len(), 16);
    assert_eq!(output.sequence_step_size, 62);
    for section in &output.sequence {
        assert_eq!(section.start % 200, 0);
        assert!(section.start < 1000);
        assert_eq!(section.end, section.start + 62);
    }
}

#[test]
fn test_frame_position() {
    let output = LoopSequencerOutput {
        sequence: vec![
            VirtualLoopSection { start: 300, end: 350 },
            VirtualLoopSection { start: 0, end: 50 },
        ],
        sequence_step_size: 50,
    };
    assert_eq!(
        output.frame_position(10, 400),
        SequencerFrame { index: 310, overflow: 10 }
    );
    assert_eq!(
        output.frame_position(60, 400),
        SequencerFrame { index: 10, overflow: 10 }
    );
    // the third step goes back to the first section
    assert_eq!(
        output.frame_position(120, 400),
        SequencerFrame { index: 320, overflow: 20 }
    );
    // the cursor wraps at the clip length
    assert_eq!(
        output.frame_position(410, 400),
        SequencerFrame { index: 310, overflow: 10 }
    );
}


#[test]
fn test_sequencer_processor_plays_its_sequence() {
    let mut processor: LoopSequencerProcessor<i32> = LoopSequencerProcessor::new();
    assert_eq!(processor.params(), None);
    assert_eq!(processor.playhead(), None);
    assert!(processor.next_frame().is_none());

    let clip = SampleBuffer::from_channels(vec![(0..8).collect(), (100..108).collect()], 8);
    let params = LoopSequencerParams {
        num_slices: 2,
        sequence_length: 4,
        num_samples: 8,
    };
    processor.set_params(params, &clip);
    assert_eq!(processor.params(), Some(params));
    assert_eq!(processor.playhead(), Some(0));
    let output = processor.output().unwrap();
    assert_eq!(output.sequence_step_size, 2);
    let starts: Vec<usize> = output.sequence.iter().map(|s| s.start).collect();
    assert_eq!(starts.len(), 4);
    assert!(starts.iter().all(|s| *s == 0 || *s == 4));

    let mut played = Vec::new();
    for _ in 0..16 {
        let (frame, samples) = processor.next_frame().unwrap();
        assert_eq!(samples, vec![frame.index as i32, 100 + frame.index as i32]);
        assert_eq!(processor.playhead(), Some(frame.index));
        played.push(frame.index);
    }
    // each step of two frames starts a slice, and the sequence repeats
    // every clip length
    for step in 0..4 {
        assert_eq!(played[2 * step], starts[step]);
        assert_eq!(played[2 * step + 1], starts[step] + 1);
    }
    assert_eq!(&played[0..8], &played[8..16]);
}

#[test]
fn test_is_playable_output() {
    let empty = LoopSequencerOutput {
        sequence: vec![],
        sequence_step_size: 4,
    };
    assert!(!is_playable_output(&empty));
    let no_steps = LoopSequencerOutput {
        sequence: vec![VirtualLoopSection { start: 0, end: 0 }],
        sequence_step_size: 0,
    };
    assert!(!is_playable_output(&no_steps));
    let huge = LoopSequencerOutput {
        sequence: vec![VirtualLoopSection { start: usize::MAX, end: usize::MAX }],
        sequence_step_size: 1,
    };
    assert!(!is_playable_output(&huge));
    let fine = LoopSequencerOutput {
        sequence: vec![VirtualLoopSection { start: 4, end: 8 }],
        sequence_step_size: 4,
    };
    assert!(is_playable_output(&fine));
}
