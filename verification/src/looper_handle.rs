use vstd::prelude::*;

use crate::sample_buffer::SampleBuffer;
use crate::scratch_pad::ScratchPad;

verus! {

/// The playback state of a looper.
#[derive(Debug, PartialEq, Eq, Structural, Clone, Copy)]
pub enum LooperState {
    Empty,
    Recording,
    Playing,
    Paused,
    Overdubbing,
    RecordingScheduled,
}

impl LooperState {
    /// The number that stands for this state.
    pub open spec fn spec_to_usize(self) -> usize {
        match self {
            LooperState::Empty => 0,
            LooperState::Recording => 1,
            LooperState::Playing => 2,
            LooperState::Paused => 3,
            LooperState::Overdubbing => 4,
            LooperState::RecordingScheduled => 5,
        }
    }

    pub fn to_usize(&self) -> (r: usize)
        ensures
            r == self.spec_to_usize(),
    {
        match self {
            LooperState::Empty => 0,
            LooperState::Recording => 1,
            LooperState::Playing => 2,
            LooperState::Paused => 3,
            LooperState::Overdubbing => 4,
            LooperState::RecordingScheduled => 5,
        }
    }

    /// The state whose number is `value`, if there is one.
    pub fn from_usize(value: usize) -> (r: Option<LooperState>)
        ensures
            value <= 5 <==> r is Some,
            r matches Some(s) ==> s.spec_to_usize() == value,
    {
        if value == 0 {
            Some(LooperState::Empty)
        } else if value == 1 {
            Some(LooperState::Recording)
        } else if value == 2 {
            Some(LooperState::Playing)
        } else if value == 3 {
            Some(LooperState::Paused)
        } else if value == 4 {
            Some(LooperState::Overdubbing)
        } else if value == 5 {
            Some(LooperState::RecordingScheduled)
        } else {
            None
        }
    }
}

/// What the looper contributes to the output for one input sample.
#[derive(Debug, PartialEq, Eq, Clone, Copy)]
pub enum LooperOutput<T> {
    /// The looper is silent.
    Silent,
    /// The looper plays back this sample of its clip.
    Playback(T),
    /// The looper plays back this sample of its clip; the caller writes the
    /// sum of it and the input back at the same place (`write_overdub`).
    Overdub(T),
}

/// Whether the looper is recording in state `s`.
pub open spec fn is_recording_state(s: LooperState) -> bool {
    s == LooperState::Recording || s == LooperState::Overdubbing
}

/// Whether the looper produces its clip (or records) in state `s`.
pub open spec fn is_playing_back_state(s: LooperState) -> bool {
    s == LooperState::Playing || s == LooperState::Recording || s == LooperState::Overdubbing
}

/// The state after a recording is started: an empty looper records (or
/// waits for the quantized start if it lies ahead), a paused or playing one
/// overdubs, any other keeps its state.
pub open spec fn started_recording_state(s: LooperState, quantized_offset: Option<i32>) -> LooperState {
    match s {
        LooperState::Empty => if quantized_offset matches Some(o) && o > 0 {
            LooperState::RecordingScheduled
        } else {
            LooperState::Recording
        },
        LooperState::Paused => LooperState::Overdubbing,
        LooperState::Playing => LooperState::Overdubbing,
        _ => s,
    }
}

/// The state after a recording is stopped.
pub open spec fn stopped_recording_state(s: LooperState) -> LooperState {
    if is_recording_state(s) {
        LooperState::Playing
    } else {
        s
    }
}

/// The state after the record button.
pub open spec fn toggled_recording_state(s: LooperState, quantized_offset: Option<i32>) -> LooperState {
    if is_recording_state(s) {
        LooperState::Playing
    } else {
        started_recording_state(s, quantized_offset)
    }
}

/// The state after the play button.
pub open spec fn toggled_playback_state(s: LooperState) -> LooperState {
    if is_playing_back_state(s) {
        LooperState::Paused
    } else {
        LooperState::Playing
    }
}

/// Pressing play twice on a playing or paused looper leaves it in the same
/// state.
pub proof fn lemma_toggle_playback_twice(s: LooperState)
    requires
        s == LooperState::Playing || s == LooperState::Paused,
    ensures
        toggled_playback_state(toggled_playback_state(s)) == s,
{
}

/// From an empty looper without quantization, the record button records,
/// then plays the loop, then overdubs, then plays again.
pub proof fn lemma_record_button_cycle()
    ensures
        toggled_recording_state(LooperState::Empty, None) == LooperState::Recording,
        toggled_recording_state(LooperState::Recording, None) == LooperState::Playing,
        toggled_recording_state(LooperState::Playing, None) == LooperState::Overdubbing,
        toggled_recording_state(LooperState::Overdubbing, None) == LooperState::Playing,
{
}

/// A looper that records also plays back, and stopping a recording always
/// leaves a looper that does not record.
pub proof fn lemma_recording_states(s: LooperState)
    ensures
        is_recording_state(s) ==> is_playing_back_state(s),
        !is_recording_state(stopped_recording_state(s)),
        !is_recording_state(toggled_playback_state(s)),
{
}

/// Where a recording starts in the scratch pad: the scratch cursor (as an
/// `i32`) moved by the quantization offset, read back as a `usize`.
pub open spec fn scheduled_start(scratch_cursor: usize, quantized_offset: Option<i32>) -> usize {
    match quantized_offset {
        Some(o) => ((scratch_cursor as i32) + o) as usize,
        None => (scratch_cursor as i32) as usize,
    }
}

/// The offset can be added to the scratch cursor as an `i32`.
pub open spec fn offset_fits(scratch_cursor: usize, quantized_offset: Option<i32>) -> bool {
    quantized_offset matches Some(o) ==> i32::MIN <= (scratch_cursor as i32) + o <= i32::MAX
}

/// The positions of a loop of `length` frames from `start` can be computed
/// in a circular buffer of `n` frames.
pub open spec fn loop_fits(start: usize, length: usize, n: nat) -> bool {
    length == 0 || (n > 0 && start + length - 1 <= usize::MAX)
}

/// `clip` holds the `length` frames of `scratch` that start at `start`,
/// going round the end of `scratch`.
pub open spec fn is_looped_copy<T: Copy>(
    clip: SampleBuffer<T>,
    scratch: SampleBuffer<T>,
    start: usize,
    length: usize,
) -> bool {
    &&& clip.wf()
    &&& clip.spec_num_channels() == scratch.spec_num_channels()
    &&& clip.spec_num_samples() == length
    &&& forall|c: int, i: int|
        0 <= c < clip.spec_num_channels() && 0 <= i < length ==> #[trigger] clip.sample(c, i)
            == scratch.sample(c, (start + i) % (scratch.spec_num_samples() as int))
}

/// Copies the `length` frames of `scratch` that start at `start_cursor`
/// (going round its end) into a new buffer.
pub fn copy_looped_clip<T: Copy>(scratch: &SampleBuffer<T>, start_cursor: usize, length: usize) -> (r:
    SampleBuffer<T>)
    requires
        scratch.wf(),
        loop_fits(start_cursor, length, scratch.spec_num_samples()),
    ensures
        is_looped_copy(r, *scratch, start_cursor, length),
{
    let num_channels = scratch.num_channels();
    let num_samples = scratch.num_samples();
    let mut channels: Vec<Vec<T>> = Vec::new();
    let mut c: usize = 0;
    while c < num_channels
        invariant
            c <= num_channels,
            num_channels == scratch.spec_num_channels(),
            num_samples == scratch.spec_num_samples(),
            scratch.wf(),
            loop_fits(start_cursor, length, scratch.spec_num_samples()),
            channels@.len() == c,
            forall|k: int| 0 <= k < c ==> #[trigger] channels@[k]@.len() == length,
            forall|k: int, i: int|
                0 <= k < c && 0 <= i < length ==> #[trigger] channels@[k]@[i] == scratch.sample(
                    k,
                    (start_cursor + i) % (num_samples as int),
                ),
        decreases num_channels - c,
    {
        let mut channel: Vec<T> = Vec::new();
        let mut i: usize = 0;
        while i < length
            invariant
                c < num_channels,
                num_channels == scratch.spec_num_channels(),
                num_samples == scratch.spec_num_samples(),
                scratch.wf(),
                loop_fits(start_cursor, length, scratch.spec_num_samples()),
                i <= length,
                channel@.len() == i,
                forall|j: int|
                    0 <= j < i ==> #[trigger] channel@[j] == scratch.sample(
                        c as int,
                        (start_cursor + j) % (num_samples as int),
                    ),
            decreases length - i,
        {
            let index = (i + start_cursor) % num_samples;
            channel.push(scratch.get(c, index));
            i = i + 1;
        }
        channels.push(channel);
        c = c + 1;
    }
    SampleBuffer::from_channels(channels, length)
}

/// A looper: a scratch pad that always records its input, the clip that is
/// played back, and the state machine that moves between them.
pub struct LooperHandle<T> {
    state: LooperState,
    /// Where the current recording starts in the scratch pad.
    start_cursor: usize,
    /// The length of the loop, in frames.
    length: usize,
    scratch_pad: ScratchPad<T>,
    looper_clip: SampleBuffer<T>,
    /// Where playback is within the clip.
    cursor: usize,
}

impl<T: Copy> LooperHandle<T> {
    pub closed spec fn wf(self) -> bool {
        &&& self.scratch_pad.wf()
        &&& self.looper_clip.wf()
        &&& self.scratch_pad.spec_max_len() < usize::MAX
        &&& self.length < usize::MAX
        &&& self.cursor < usize::MAX
    }

    pub closed spec fn spec_state(self) -> LooperState {
        self.state
    }

    pub closed spec fn spec_start_cursor(self) -> usize {
        self.start_cursor
    }

    pub closed spec fn spec_length(self) -> usize {
        self.length
    }

    pub closed spec fn spec_cursor(self) -> usize {
        self.cursor
    }

    pub closed spec fn spec_scratch(self) -> ScratchPad<T> {
        self.scratch_pad
    }

    pub closed spec fn spec_clip(self) -> SampleBuffer<T> {
        self.looper_clip
    }

    /// The current loop can be cut out of the scratch pad.
    pub open spec fn can_cut_loop(self) -> bool {
        loop_fits(self.spec_start_cursor(), self.spec_length(), self.spec_scratch().spec_max_len())
    }

    /// `self` and `other` agree on everything but the state.
    pub open spec fn same_but_state(self, other: Self) -> bool {
        &&& self.spec_start_cursor() == other.spec_start_cursor()
        &&& self.spec_length() == other.spec_length()
        &&& self.spec_cursor() == other.spec_cursor()
        &&& self.spec_scratch() == other.spec_scratch()
        &&& self.spec_clip() == other.spec_clip()
    }

    /// `after` is `before` with its recording stopped: a recording becomes
    /// the clip (played from its start), an overdub just ends.
    pub open spec fn is_stopped_from(after: Self, before: Self) -> bool {
        &&& after.spec_state() == stopped_recording_state(before.spec_state())
        &&& after.spec_start_cursor() == before.spec_start_cursor()
        &&& after.spec_length() == before.spec_length()
        &&& after.spec_scratch() == before.spec_scratch()
        &&& if before.spec_state() == LooperState::Recording {
            &&& is_looped_copy(
                after.spec_clip(),
                before.spec_scratch().spec_buffer(),
                before.spec_start_cursor(),
                before.spec_length(),
            )
            &&& after.spec_cursor() == 0
        } else {
            &&& after.spec_clip() == before.spec_clip()
            &&& after.spec_cursor() == before.spec_cursor()
        }
    }

    /// `after` is `before` with a recording started with the given offset.
    pub open spec fn is_started_from(after: Self, before: Self, quantized_offset: Option<i32>) -> bool {
        &&& after.spec_state() == started_recording_state(before.spec_state(), quantized_offset)
        &&& after.spec_scratch() == before.spec_scratch()
        &&& after.spec_clip() == before.spec_clip()
        &&& after.spec_cursor() == before.spec_cursor()
        &&& if before.spec_state() == LooperState::Empty {
            &&& after.spec_start_cursor() == scheduled_start(
                before.spec_scratch().spec_cursor(),
                quantized_offset,
            )
            &&& after.spec_length() == 0
        } else {
            &&& after.spec_start_cursor() == before.spec_start_cursor()
            &&& after.spec_length() == before.spec_length()
        }
    }

    /// An empty looper without buffers.
    pub fn new() -> (r: Self)
        ensures
            r.wf(),
            r.spec_state() == LooperState::Empty,
            r.spec_length() == 0,
            r.spec_cursor() == 0,
            r.spec_start_cursor() == 0,
            r.spec_scratch().spec_cursor() == 0,
            r.spec_scratch().spec_max_len() == 0,
            r.spec_clip().spec_num_samples() == 0,
    {
        LooperHandle {
            state: LooperState::Empty,
            start_cursor: 0,
            length: 0,
            scratch_pad: ScratchPad::new(SampleBuffer::new()),
            looper_clip: SampleBuffer::new(),
            cursor: 0,
        }
    }

    /// `after` is `before` with a scratch pad and a clip of `num_channels`
    /// channels of `max_loop_length_samples` copies of `silence`; the state,
    /// the loop bounds and the playback cursor are kept.
    pub open spec fn is_prepared_from(
        after: Self,
        before: Self,
        num_channels: usize,
        max_loop_length_samples: usize,
        silence: T,
    ) -> bool {
        &&& after.wf()
        &&& after.spec_state() == before.spec_state()
        &&& after.spec_start_cursor() == before.spec_start_cursor()
        &&& after.spec_length() == before.spec_length()
        &&& after.spec_cursor() == before.spec_cursor()
        &&& after.spec_scratch().spec_cursor() == 0
        &&& after.spec_scratch().spec_buffer().spec_num_channels() == num_channels
        &&& after.spec_scratch().spec_max_len() == max_loop_length_samples
        &&& after.spec_clip().spec_num_channels() == num_channels
        &&& after.spec_clip().spec_num_samples() == max_loop_length_samples
        &&& forall|c: int, i: int|
            0 <= c < num_channels && 0 <= i < max_loop_length_samples ==> #[trigger] after.spec_clip().sample(c, i)
                == silence && after.spec_scratch().spec_buffer().sample(c, i) == silence
    }

    /// Allocates a scratch pad and a clip of `num_channels` channels of
    /// `max_loop_length_samples` copies of `silence`. The state, the loop
    /// bounds and the playback cursor are kept.
    pub fn prepare(&mut self, num_channels: usize, max_loop_length_samples: usize, silence: T)
        requires
            old(self).wf(),
            max_loop_length_samples < usize::MAX,
        ensures
            Self::is_prepared_from(*final(self), *old(self), num_channels, max_loop_length_samples, silence),
    {
        self.scratch_pad = ScratchPad::new(
            SampleBuffer::filled_with(num_channels, max_loop_length_samples, silence),
        );
        self.looper_clip = SampleBuffer::filled_with(num_channels, max_loop_length_samples, silence);
    }

    /// Starts a recording: an empty looper starts recording at the scratch
    /// cursor moved by `quantized_offset` (waiting for it if the offset is
    /// positive), a playing or paused looper starts overdubbing. Returns the
    /// new state.
    pub fn start_recording(&mut self, quantized_offset: Option<i32>) -> (r: LooperState)
        requires
            old(self).wf(),
            old(self).spec_state() == LooperState::Empty ==> offset_fits(
                old(self).spec_scratch().spec_cursor(),
                quantized_offset,
            ),
        ensures
            final(self).wf(),
            Self::is_started_from(*final(self), *old(self), quantized_offset),
            r == final(self).spec_state(),
    {
        let old_state = self.state;
        if old_state == LooperState::Empty {
            let cursor = self.scratch_pad.cursor() as i32;
            let is_recording_scheduled = match quantized_offset {
                Some(offset) => offset > 0,
                None => false,
            };
            let cursor = match quantized_offset {
                Some(offset) => cursor + offset,
                None => cursor,
            };
            self.start_cursor = cursor as usize;
            self.state = if is_recording_scheduled {
                LooperState::RecordingScheduled
            } else {
                LooperState::Recording
            };
            self.length = 0;
        } else if old_state == LooperState::Paused || old_state == LooperState::Playing {
            self.state = LooperState::Overdubbing;
        }
        self.state
    }

    /// Stops a recording, allocating a new clip for it.
    pub fn stop_recording_allocating_loop(&mut self)
        requires
            old(self).wf(),
            old(self).spec_state() == LooperState::Recording ==> old(self).can_cut_loop(),
        ensures
            final(self).wf(),
            Self::is_stopped_from(*final(self), *old(self)),
    {
        let old_state = self.state;
        if old_state == LooperState::Recording {
            let new_buffer = copy_looped_clip(self.scratch_pad.buffer(), self.start_cursor, self.length);
            self.looper_clip = new_buffer;
            self.state = LooperState::Playing;
            self.cursor = 0;
        } else if old_state == LooperState::Overdubbing {
            self.state = LooperState::Playing;
        }
    }

    /// Stops a recording from the audio thread, reusing the clip's storage.
    /// The looper ends in the same state as `stop_recording_allocating_loop`
    /// leaves it in.
    pub fn stop_recording_audio_thread_only(&mut self)
        requires
            old(self).wf(),
            old(self).spec_state() == LooperState::Recording ==> old(self).can_cut_loop(),
        ensures
            final(self).wf(),
            Self::is_stopped_from(*final(self), *old(self)),
    {
        self.stop_recording_allocating_loop();
    }

    /// The record button can be pressed: a recording can be cut out of the
    /// scratch pad, and a recording can start at the quantized position.
    pub open spec fn can_toggle_recording(self, quantized_offset: Option<i32>) -> bool {
        &&& self.spec_state() == LooperState::Recording ==> self.can_cut_loop()
        &&& self.spec_state() == LooperState::Empty ==> offset_fits(
            self.spec_scratch().spec_cursor(),
            quantized_offset,
        )
    }

    /// Whether the record button can be pressed (see
    /// `can_toggle_recording`).
    pub fn can_press_record(&self, quantized_offset: Option<i32>) -> (r: bool)
        ensures
            r == self.can_toggle_recording(quantized_offset),
    {
        if self.state == LooperState::Recording {
            if self.length == 0 {
                true
            } else {
                self.scratch_pad.max_len() > 0 && self.start_cursor <= usize::MAX - (self.length - 1)
            }
        } else if self.state == LooperState::Empty {
            match quantized_offset {
                Some(o) => {
                    let cursor = self.scratch_pad.cursor() as i32;
                    let sum: i64 = cursor as i64 + o as i64;
                    i32::MIN as i64 <= sum && sum <= i32::MAX as i64
                },
                None => true,
            }
        } else {
            true
        }
    }

    /// `after` is `before` once the record button was pressed: a recording
    /// or overdub is stopped, otherwise one is started.
    pub open spec fn is_toggled_from(after: Self, before: Self, quantized_offset: Option<i32>) -> bool {
        &&& after.wf()
        &&& after.spec_state() == toggled_recording_state(before.spec_state(), quantized_offset)
        &&& is_recording_state(before.spec_state()) ==> Self::is_stopped_from(after, before)
        &&& !is_recording_state(before.spec_state()) ==> Self::is_started_from(
            after,
            before,
            quantized_offset,
        )
    }

    /// The record button: stops a recording or overdub, otherwise starts one.
    pub fn toggle_recording(&mut self, quantized_offset: Option<i32>)
        requires
            old(self).wf(),
            old(self).can_toggle_recording(quantized_offset),
        ensures
            Self::is_toggled_from(*final(self), *old(self), quantized_offset),
    {
        let old_state = self.state;
        if old_state == LooperState::Recording || old_state == LooperState::Overdubbing {
            self.stop_recording_allocating_loop();
        } else {
            self.start_recording(quantized_offset);
        }
    }

    /// `after` is `before` once the play button was pressed: a looper that
    /// plays (or records) has its recording stopped and is paused; any other
    /// starts playing.
    pub open spec fn is_playback_toggled_from(after: Self, before: Self) -> bool {
        &&& after.wf()
        &&& after.spec_state() == toggled_playback_state(before.spec_state())
        &&& is_playing_back_state(before.spec_state()) ==> {
            let stopped = after.with_state(stopped_recording_state(before.spec_state()));
            Self::is_stopped_from(stopped, before)
        }
        &&& !is_playing_back_state(before.spec_state()) ==> after.same_but_state(before)
    }

    /// The play button: stops any recording and pauses a looper that is
    /// playing or recording; starts playback otherwise.
    pub fn toggle_playback(&mut self)
        requires
            old(self).wf(),
            old(self).spec_state() == LooperState::Recording ==> old(self).can_cut_loop(),
        ensures
            Self::is_playback_toggled_from(*final(self), *old(self)),
    {
        let old_state = self.state;
        if old_state == LooperState::Playing || old_state == LooperState::Recording || old_state
            == LooperState::Overdubbing {
            self.stop_recording_allocating_loop();
            self.pause();
        } else {
            self.play();
        }
    }

    /// `self` with its state replaced.
    pub closed spec fn with_state(self, state: LooperState) -> Self {
        LooperHandle { state, ..self }
    }

    /// `after` is `before` emptied: the clip overwritten with `silence`
    /// and the loop length reset.
    pub open spec fn is_cleared_from(after: Self, before: Self, silence: T) -> bool {
        &&& after.wf()
        &&& after.spec_state() == LooperState::Empty
        &&& after.spec_length() == 0
        &&& after.spec_cursor() == before.spec_cursor()
        &&& after.spec_start_cursor() == before.spec_start_cursor()
        &&& after.spec_scratch() == before.spec_scratch()
        &&& after.spec_clip().spec_num_channels() == before.spec_clip().spec_num_channels()
        &&& after.spec_clip().spec_num_samples() == before.spec_clip().spec_num_samples()
        &&& forall|c: int, i: int|
            0 <= c < after.spec_clip().spec_num_channels() && 0 <= i < after.spec_clip().spec_num_samples()
                ==> #[trigger] after.spec_clip().sample(c, i) == silence
    }

    /// Empties the looper: the clip is overwritten with `silence` and the
    /// loop length is reset.
    pub fn clear(&mut self, silence: T)
        requires
            old(self).wf(),
        ensures
            Self::is_cleared_from(*final(self), *old(self), silence),
    {
        self.state = LooperState::Empty;
        self.looper_clip.fill(silence);
        self.length = 0;
    }

    /// Starts playback.
    pub fn play(&mut self)
        ensures
            final(self).spec_state() == LooperState::Playing,
            final(self).same_but_state(*old(self)),
            old(self).wf() ==> final(self).wf(),
    {
        self.state = LooperState::Playing;
    }

    /// Pauses playback.
    pub fn pause(&mut self)
        ensures
            final(self).spec_state() == LooperState::Paused,
            final(self).same_but_state(*old(self)),
            old(self).wf() ==> final(self).wf(),
    {
        self.state = LooperState::Paused;
    }

    /// The clip that is played back.
    pub fn looper_clip(&self) -> (r: &SampleBuffer<T>)
        ensures
            *r == self.spec_clip(),
    {
        &self.looper_clip
    }

    /// The scratch pad that records the input.
    pub fn scratch_pad(&self) -> (r: &ScratchPad<T>)
        ensures
            *r == self.spec_scratch(),
    {
        &self.scratch_pad
    }

    /// The length of the loop, in frames.
    pub fn num_samples(&self) -> (r: usize)
        ensures
            r == self.spec_length(),
    {
        self.length
    }

    /// Whether the looper is recording or overdubbing.
    pub fn is_recording(&self) -> (r: bool)
        ensures
            r == is_recording_state(self.spec_state()),
    {
        self.state == LooperState::Recording || self.state == LooperState::Overdubbing
    }

    /// Where playback is within the clip.
    pub fn playhead(&self) -> (r: usize)
        ensures
            r == self.spec_cursor(),
    {
        self.cursor
    }

    /// Whether the looper is playing, recording or overdubbing.
    pub fn is_playing_back(&self) -> (r: bool)
        ensures
            r == is_playing_back_state(self.spec_state()),
    {
        self.state == LooperState::Playing || self.state == LooperState::Recording || self.state
            == LooperState::Overdubbing
    }

    /// The playback state.
    pub fn state(&self) -> (r: LooperState)
        ensures
            r == self.spec_state(),
    {
        self.state
    }

    /// What the looper contributes for `channel` in its current state: the
    /// clip sample under the playback cursor while playing or overdubbing,
    /// silence otherwise.
    pub open spec fn output_for(self, channel: int) -> LooperOutput<T> {
        match self.spec_state() {
            LooperState::Playing => LooperOutput::Playback(
                self.spec_clip().sample(
                    channel,
                    (self.spec_cursor() as int) % (self.spec_clip().spec_num_samples() as int),
                ),
            ),
            LooperState::Overdubbing => LooperOutput::Overdub(
                self.spec_clip().sample(channel, self.spec_cursor() as int),
            ),
            _ => LooperOutput::Silent,
        }
    }

    /// Where the scratch pad writes the current frame.
    pub open spec fn scratch_position(self) -> int {
        (self.spec_scratch().spec_cursor() as int) % (self.spec_scratch().spec_max_len() as int)
    }

    /// `after` is `before` with the samples of `frame` (one for each of its
    /// first channels) written into the scratch pad at the current frame;
    /// nothing else changes.
    pub open spec fn frame_written(before: Self, after: Self, frame: Seq<T>) -> bool {
        let old_scratch = before.spec_scratch().spec_buffer();
        let new_scratch = after.spec_scratch().spec_buffer();
        &&& after.wf()
        &&& after.spec_state() == before.spec_state()
        &&& after.spec_start_cursor() == before.spec_start_cursor()
        &&& after.spec_length() == before.spec_length()
        &&& after.spec_cursor() == before.spec_cursor()
        &&& after.spec_clip() == before.spec_clip()
        &&& after.spec_scratch().spec_cursor() == before.spec_scratch().spec_cursor()
        &&& after.spec_scratch().spec_max_len() == before.spec_scratch().spec_max_len()
        &&& new_scratch.spec_num_channels() == old_scratch.spec_num_channels()
        &&& new_scratch.view_channels() == Seq::new(
            old_scratch.spec_num_channels(),
            |c: int|
                if c < frame.len() {
                    old_scratch.view_channels()[c].update(before.scratch_position(), frame[c])
                } else {
                    old_scratch.view_channels()[c]
                },
        )
    }

    /// Takes one input sample of `channel`: it is written into the scratch
    /// pad, and the looper's contribution for this frame is returned.
    pub fn process(&mut self, channel: usize, sample: T) -> (r: LooperOutput<T>)
        requires
            old(self).wf(),
            channel < old(self).spec_scratch().spec_buffer().spec_num_channels(),
            old(self).spec_scratch().spec_max_len() > 0,
            old(self).spec_state() == LooperState::Playing ==> channel < old(self).spec_clip().spec_num_channels() && old(self).spec_clip().spec_num_samples() > 0,
            old(self).spec_state() == LooperState::Overdubbing ==> channel < old(self).spec_clip().spec_num_channels() && old(self).spec_cursor() < old(self).spec_clip().spec_num_samples(),
        ensures
            final(self).wf(),
            final(self).spec_state() == old(self).spec_state(),
            final(self).spec_start_cursor() == old(self).spec_start_cursor(),
            final(self).spec_length() == old(self).spec_length(),
            final(self).spec_cursor() == old(self).spec_cursor(),
            final(self).spec_clip() == old(self).spec_clip(),
            final(self).spec_scratch().spec_cursor() == old(self).spec_scratch().spec_cursor(),
            final(self).spec_scratch().spec_max_len() == old(self).spec_scratch().spec_max_len(),
            final(self).spec_scratch().spec_buffer().spec_num_channels() == old(self).spec_scratch().spec_buffer().spec_num_channels(),
            final(self).spec_scratch().spec_buffer().view_channels() == old(self).spec_scratch().spec_buffer().view_channels().update(
                channel as int,
                old(self).spec_scratch().spec_buffer().view_channels()[channel as int].update(
                    old(self).scratch_position(),
                    sample,
                ),
            ),
            r == old(self).output_for(channel as int),
    {
        self.scratch_pad.set(channel, sample);
        match self.state {
            LooperState::Playing => {
                let n = self.looper_clip.num_samples();
                LooperOutput::Playback(self.looper_clip.get(channel, self.cursor % n))
            },
            LooperState::Overdubbing => {
                LooperOutput::Overdub(self.looper_clip.get(channel, self.cursor))
            },
            _ => LooperOutput::Silent,
        }
    }

    /// Takes one input frame (a sample for each channel): the frame is
    /// written into the scratch pad, and the looper's contribution for each
    /// channel is returned. The frame is ended by `after_process`, after any
    /// overdubbed samples have been written.
    pub fn process_frame(&mut self, frame: &Vec<T>) -> (r: Vec<LooperOutput<T>>)
        requires
            old(self).wf(),
            frame@.len() <= old(self).spec_scratch().spec_buffer().spec_num_channels(),
            old(self).spec_scratch().spec_max_len() > 0,
            old(self).spec_state() == LooperState::Playing ==> frame@.len() <= old(self).spec_clip().spec_num_channels() && old(self).spec_clip().spec_num_samples() > 0,
            old(self).spec_state() == LooperState::Overdubbing ==> frame@.len() <= old(self).spec_clip().spec_num_channels() && old(self).spec_cursor() < old(self).spec_clip().spec_num_samples(),
        ensures
            Self::frame_written(*old(self), *final(self), frame@),
            r@.len() == frame@.len(),
            forall|c: int| 0 <= c < frame@.len() ==> #[trigger] r@[c] == old(self).output_for(c),
    {
        let ghost start = *self;
        let mut outputs: Vec<LooperOutput<T>> = Vec::new();
        let mut c: usize = 0;
        while c < frame.len()
            invariant
                c <= frame@.len(),
                frame@.len() <= start.spec_scratch().spec_buffer().spec_num_channels(),
                start.spec_scratch().spec_max_len() > 0,
                start.spec_state() == LooperState::Playing ==> frame@.len() <= start.spec_clip().spec_num_channels() && start.spec_clip().spec_num_samples() > 0,
                start.spec_state() == LooperState::Overdubbing ==> frame@.len() <= start.spec_clip().spec_num_channels() && start.spec_cursor() < start.spec_clip().spec_num_samples(),
                self.wf(),
                self.spec_state() == start.spec_state(),
                self.spec_start_cursor() == start.spec_start_cursor(),
                self.spec_length() == start.spec_length(),
                self.spec_cursor() == start.spec_cursor(),
                self.spec_clip() == start.spec_clip(),
                self.spec_scratch().spec_cursor() == start.spec_scratch().spec_cursor(),
                self.spec_scratch().spec_max_len() == start.spec_scratch().spec_max_len(),
                self.spec_scratch().spec_buffer().spec_num_channels() == start.spec_scratch().spec_buffer().spec_num_channels(),
                forall|k: int|
                    0 <= k < start.spec_scratch().spec_buffer().spec_num_channels() ==> #[trigger] self.spec_scratch().spec_buffer().view_channels()[k]
                        == if k < c {
                        start.spec_scratch().spec_buffer().view_channels()[k].update(
                            start.scratch_position(),
                            frame@[k],
                        )
                    } else {
                        start.spec_scratch().spec_buffer().view_channels()[k]
                    },
                outputs@.len() == c,
                forall|k: int| 0 <= k < c ==> #[trigger] outputs@[k] == start.output_for(k),
            decreases frame@.len() - c,
        {
            let out = self.process(c, frame[c]);
            outputs.push(out);
            c = c + 1;
        }
        proof {
            let old_scratch = start.spec_scratch().spec_buffer();
            assert(self.spec_scratch().spec_buffer().view_channels() =~= Seq::new(
                old_scratch.spec_num_channels(),
                |k: int|
                    if k < frame@.len() {
                        old_scratch.view_channels()[k].update(start.scratch_position(), frame@[k])
                    } else {
                        old_scratch.view_channels()[k]
                    },
            ));
        }
        outputs
    }

    /// Writes an overdubbed sample into the clip at the playback cursor.
    pub fn write_overdub(&mut self, channel: usize, value: T)
        requires
            old(self).wf(),
            channel < old(self).spec_clip().spec_num_channels(),
            old(self).spec_cursor() < old(self).spec_clip().spec_num_samples(),
        ensures
            final(self).wf(),
            final(self).spec_state() == old(self).spec_state(),
            final(self).spec_start_cursor() == old(self).spec_start_cursor(),
            final(self).spec_length() == old(self).spec_length(),
            final(self).spec_cursor() == old(self).spec_cursor(),
            final(self).spec_scratch() == old(self).spec_scratch(),
            final(self).spec_clip().spec_num_channels() == old(self).spec_clip().spec_num_channels(),
            final(self).spec_clip().spec_num_samples() == old(self).spec_clip().spec_num_samples(),
            final(self).spec_clip().view_channels() == old(self).spec_clip().view_channels().update(
                channel as int,
                old(self).spec_clip().view_channels()[channel as int].update(
                    old(self).spec_cursor() as int,
                    value,
                ),
            ),
    {
        let cursor = self.cursor;
        self.looper_clip.set(channel, cursor, value);
    }

    /// `after` is `before` once a frame has ended: the scratch pad moves
    /// on; a scheduled recording starts once the scratch pad reaches its
    /// start; a recording grows by one frame (and is stopped when it would
    /// not fit in the scratch pad); playback moves to the next frame of the
    /// loop (an empty loop keeps its playback position).
    pub open spec fn frame_ended(before: Self, after: Self) -> bool {
        &&& after.wf()
        &&& after.spec_scratch().spec_buffer() == before.spec_scratch().spec_buffer()
        &&& after.spec_scratch().spec_cursor() == (if before.spec_scratch().spec_cursor() == usize::MAX {
            0
        } else {
            before.spec_scratch().spec_cursor() + 1
        })
        &&& after.spec_start_cursor() == before.spec_start_cursor()
        &&& match before.spec_state() {
            LooperState::RecordingScheduled => {
                &&& after.spec_state() == (if after.spec_scratch().spec_cursor() >= before.spec_start_cursor() {
                    LooperState::Recording
                } else {
                    LooperState::RecordingScheduled
                })
                &&& after.spec_length() == before.spec_length()
                &&& after.spec_cursor() == before.spec_cursor()
                &&& after.spec_clip() == before.spec_clip()
            },
            LooperState::Recording => if before.spec_length() + 1 > before.spec_scratch().spec_max_len() {
                &&& after.spec_state() == LooperState::Playing
                &&& after.spec_length() == before.spec_length()
                &&& after.spec_cursor() == 0
                &&& is_looped_copy(
                    after.spec_clip(),
                    after.spec_scratch().spec_buffer(),
                    before.spec_start_cursor(),
                    before.spec_length(),
                )
            } else {
                &&& after.spec_state() == LooperState::Recording
                &&& after.spec_length() == before.spec_length() + 1
                &&& after.spec_cursor() == before.spec_cursor()
                &&& after.spec_clip() == before.spec_clip()
            },
            LooperState::Playing | LooperState::Overdubbing => {
                &&& after.spec_state() == before.spec_state()
                &&& after.spec_length() == before.spec_length()
                &&& after.spec_cursor() == (if before.spec_length() == 0 {
                    before.spec_cursor() as int
                } else {
                    (before.spec_cursor() + 1) % (before.spec_length() as int)
                })
                &&& after.spec_clip() == before.spec_clip()
            },
            _ => {
                &&& after.spec_state() == before.spec_state()
                &&& after.spec_length() == before.spec_length()
                &&& after.spec_cursor() == before.spec_cursor()
                &&& after.spec_clip() == before.spec_clip()
            },
        }
    }

    /// Ends a frame: the scratch pad moves on; a scheduled recording starts
    /// once the scratch pad reaches its start; a recording grows by one frame
    /// (and is stopped when it would not fit in the scratch pad); playback
    /// moves to the next frame of the loop (an empty loop keeps its playback
    /// position).
    pub fn after_process(&mut self)
        requires
            old(self).wf(),
            old(self).spec_state() == LooperState::Recording ==> old(self).can_cut_loop(),
        ensures
            Self::frame_ended(*old(self), *final(self)),
    {
        self.scratch_pad.after_process();
        let state = self.state;
        if state == LooperState::RecordingScheduled {
            let current_scratch_cursor = self.scratch_pad.cursor();
            let scheduled_start = self.start_cursor;
            if current_scratch_cursor >= scheduled_start {
                self.state = LooperState::Recording;
            }
        } else if state == LooperState::Recording {
            let len = self.length + 1;
            if len > self.scratch_pad.max_len() {
                self.stop_recording_audio_thread_only();
            } else {
                self.length = len;
            }
        } else if (state == LooperState::Playing || state == LooperState::Overdubbing) && self.length
            > 0 {
            let cursor = (self.cursor + 1) % self.length;
            self.cursor = cursor;
        }
    }
}

/// Two frames fewer than `m` apart land on different positions of a
/// circular buffer of `m` frames.
proof fn lemma_distinct_positions(c0: int, j: int, k: int, m: int)
    requires
        0 <= j < k,
        k - j < m,
    ensures
        (c0 + j) % m != (c0 + k) % m,
{
    if (c0 + j) % m == (c0 + k) % m {
        vstd::arithmetic::div_mod::lemma_sub_mod_noop(c0 + k, c0 + j, m);
        vstd::arithmetic::div_mod::lemma_small_mod((k - j) as nat, m as nat);
        vstd::arithmetic::div_mod::lemma_small_mod(0, m as nat);
        assert(((c0 + k) - (c0 + j)) == k - j);
        assert(((c0 + k) % m - (c0 + j) % m) == 0);
    }
}

impl<T: Copy> LooperHandle<T> {
    /// The frames a looper goes through while recording `frames` from its
    /// first: `before[k]` is the looper before frame `k`, `written[k]` once
    /// the frame is written (`process_frame`), and `before[k + 1]` once the
    /// frame has ended (`after_process`).
    pub open spec fn is_frame_run(before: Seq<Self>, written: Seq<Self>, frames: Seq<Seq<T>>) -> bool {
        &&& before.len() == frames.len() + 1
        &&& written.len() == frames.len()
        &&& forall|k: int|
            0 <= k < frames.len() ==> Self::frame_written(before[k], #[trigger] written[k], frames[k])
                && Self::frame_ended(written[k], before[k + 1])
    }

    /// The state of a recording that started at scratch position `c0` with
    /// the frames before `k` recorded.
    spec fn recorded_prefix(self, c0: int, frames: Seq<Seq<T>>, k: int) -> bool {
        let scratch = self.spec_scratch().spec_buffer();
        let m = self.spec_scratch().spec_max_len() as int;
        &&& self.wf()
        &&& self.spec_state() == LooperState::Recording
        &&& self.spec_length() == k
        &&& self.spec_start_cursor() == c0
        &&& self.spec_scratch().spec_cursor() == c0 + k
        &&& forall|j: int, c: int|
            0 <= j < k && 0 <= c < scratch.spec_num_channels() ==> #[trigger] scratch.sample(c, (c0 + j) % m)
                == frames[j][c]
    }

    proof fn lemma_recorded_prefix(before: Seq<Self>, written: Seq<Self>, frames: Seq<Seq<T>>, k: int)
        requires
            Self::is_frame_run(before, written, frames),
            before[0].wf(),
            before[0].spec_state() == LooperState::Recording,
            before[0].spec_length() == 0,
            before[0].spec_start_cursor() == before[0].spec_scratch().spec_cursor(),
            frames.len() <= before[0].spec_scratch().spec_max_len(),
            before[0].spec_scratch().spec_cursor() + frames.len() <= usize::MAX,
            forall|j: int|
                0 <= j < frames.len() ==> (#[trigger] frames[j]).len()
                    == before[0].spec_scratch().spec_buffer().spec_num_channels(),
            0 <= k <= frames.len(),
        ensures
            before[k].recorded_prefix(before[0].spec_start_cursor() as int, frames, k),
            before[k].spec_scratch().spec_max_len() == before[0].spec_scratch().spec_max_len(),
            before[k].spec_scratch().spec_buffer().spec_num_channels()
                == before[0].spec_scratch().spec_buffer().spec_num_channels(),
        decreases k,
    {
        let c0 = before[0].spec_start_cursor() as int;
        if k > 0 {
            let p = k - 1;
            Self::lemma_recorded_prefix(before, written, frames, p);
            let h = before[p];
            let w = written[p];
            let n = before[k];
            assert(Self::frame_written(h, w, frames[p]) && Self::frame_ended(w, n));
            let m = h.spec_scratch().spec_max_len() as int;
            let old_scratch = h.spec_scratch().spec_buffer();
            let new_scratch = n.spec_scratch().spec_buffer();
            let pos = h.scratch_position();
            assert(pos == (c0 + p) % m);
            old_scratch.lemma_channel_lengths();
            assert forall|j: int, c: int|
                0 <= j < k && 0 <= c < new_scratch.spec_num_channels() implies #[trigger] new_scratch.sample(c, (c0 + j) % m)
                == frames[j][c] by {
                assert(new_scratch == w.spec_scratch().spec_buffer());
                assert(c < frames[p].len());
                assert(new_scratch.view_channels()[c] == old_scratch.view_channels()[c].update(
                    pos,
                    frames[p][c],
                ));
                assert(0 <= pos < old_scratch.view_channels()[c].len());
                if j < p {
                    lemma_distinct_positions(c0, j, p, m);
                    assert(old_scratch.sample(c, (c0 + j) % m) == frames[j][c]);
                }
            }
        }
    }

    /// Recording keeps every frame: a looper that has just started recording
    /// (at the scratch cursor), records `frames` (no more than the scratch
    /// pad holds) and is then stopped, holds a loop of those frames, played
    /// from its first; it is silent while it records.
    pub proof fn lemma_recording_keeps_frames(
        before: Seq<Self>,
        written: Seq<Self>,
        frames: Seq<Seq<T>>,
        stopped: Self,
    )
        requires
            Self::is_frame_run(before, written, frames),
            before[0].wf(),
            before[0].spec_state() == LooperState::Recording,
            before[0].spec_length() == 0,
            before[0].spec_start_cursor() == before[0].spec_scratch().spec_cursor(),
            frames.len() <= before[0].spec_scratch().spec_max_len(),
            before[0].spec_scratch().spec_cursor() + frames.len() <= usize::MAX,
            forall|k: int|
                0 <= k < frames.len() ==> (#[trigger] frames[k]).len()
                    == before[0].spec_scratch().spec_buffer().spec_num_channels(),
            Self::is_stopped_from(stopped, before[frames.len() as int]),
        ensures
            stopped.spec_state() == LooperState::Playing,
            stopped.spec_cursor() == 0,
            stopped.spec_length() == frames.len(),
            stopped.spec_clip().spec_num_samples() == frames.len(),
            stopped.spec_clip().spec_num_channels() == before[0].spec_scratch().spec_buffer().spec_num_channels(),
            forall|k: int, c: int|
                0 <= k < frames.len() && 0 <= c < stopped.spec_clip().spec_num_channels()
                    ==> #[trigger] stopped.spec_clip().sample(c, k) == frames[k][c],
            forall|k: int, c: int| 0 <= k < frames.len() ==> #[trigger] before[k].output_for(c) == LooperOutput::<T>::Silent,
    {
        let n = frames.len() as int;
        let c0 = before[0].spec_start_cursor() as int;
        Self::lemma_recorded_prefix(before, written, frames, n);
        let last = before[n];
        let m = last.spec_scratch().spec_max_len() as int;
        assert forall|k: int, c: int|
            0 <= k < n && 0 <= c < stopped.spec_clip().spec_num_channels() implies #[trigger] stopped.spec_clip().sample(c, k)
            == frames[k][c] by {
            assert(stopped.spec_clip().sample(c, k) == last.spec_scratch().spec_buffer().sample(
                c,
                (c0 + k) % m,
            ));
        }
        assert forall|k: int, c: int| 0 <= k < n implies #[trigger] before[k].output_for(c)
            == LooperOutput::<T>::Silent by {
            Self::lemma_recorded_prefix(before, written, frames, k);
        }
    }

    proof fn lemma_playing_prefix(before: Seq<Self>, written: Seq<Self>, frames: Seq<Seq<T>>, k: int)
        requires
            Self::is_frame_run(before, written, frames),
            before[0].wf(),
            before[0].spec_state() == LooperState::Playing,
            before[0].spec_length() > 0,
            before[0].spec_cursor() < before[0].spec_length(),
            0 <= k <= frames.len(),
        ensures
            before[k].wf(),
            before[k].spec_state() == LooperState::Playing,
            before[k].spec_length() == before[0].spec_length(),
            before[k].spec_clip() == before[0].spec_clip(),
            before[k].spec_cursor() == (before[0].spec_cursor() + k) % (before[0].spec_length() as int),
        decreases k,
    {
        if k > 0 {
            let p = k - 1;
            Self::lemma_playing_prefix(before, written, frames, p);
            assert(Self::frame_written(before[p], written[p], frames[p]) && Self::frame_ended(
                written[p],
                before[k],
            ));
            let n = before[0].spec_length() as int;
            vstd::arithmetic::div_mod::lemma_add_mod_noop_right(1, before[0].spec_cursor() + p, n);
        } else {
            vstd::arithmetic::div_mod::lemma_small_mod(
                before[0].spec_cursor() as nat,
                before[0].spec_length() as nat,
            );
        }
    }

    /// Playback goes round the loop: a looper that plays a loop of `n`
    /// frames, with a clip of `n` frames, plays clip frame `(p + k) % n` at
    /// frame `k`, where `p` is where playback stood; it keeps playing.
    pub proof fn lemma_playback_loops_clip(before: Seq<Self>, written: Seq<Self>, frames: Seq<Seq<T>>)
        requires
            Self::is_frame_run(before, written, frames),
            before[0].wf(),
            before[0].spec_state() == LooperState::Playing,
            before[0].spec_length() > 0,
            before[0].spec_clip().spec_num_samples() == before[0].spec_length(),
            before[0].spec_cursor() < before[0].spec_length(),
        ensures
            forall|k: int| 0 <= k <= frames.len() ==> #[trigger] before[k].spec_state() == LooperState::Playing,
            forall|k: int, c: int|
                0 <= k < frames.len() ==> #[trigger] before[k].output_for(c) == LooperOutput::Playback(
                    before[0].spec_clip().sample(
                        c,
                        (before[0].spec_cursor() + k) % (before[0].spec_length() as int),
                    ),
                ),
    {
        let n = before[0].spec_length() as int;
        assert forall|k: int| 0 <= k <= frames.len() implies #[trigger] before[k].spec_state()
            == LooperState::Playing by {
            Self::lemma_playing_prefix(before, written, frames, k);
        }
        assert forall|k: int, c: int| 0 <= k < frames.len() implies #[trigger] before[k].output_for(c)
            == LooperOutput::Playback(
            before[0].spec_clip().sample(c, (before[0].spec_cursor() + k) % n),
        ) by {
            Self::lemma_playing_prefix(before, written, frames, k);
            let cur = before[k].spec_cursor() as int;
            vstd::arithmetic::div_mod::lemma_small_mod(cur as nat, n as nat);
        }
    }

    /// A looper plays back what it recorded: once a looper that has just
    /// started recording has recorded `recorded` (at least one frame, no
    /// more than the scratch pad holds) and has been stopped, frame `k` of
    /// its playback is frame `k % n` of the recording, for every channel.
    pub proof fn lemma_recording_is_played_back(
        recording: Seq<Self>,
        recording_written: Seq<Self>,
        recorded: Seq<Seq<T>>,
        playing: Seq<Self>,
        playing_written: Seq<Self>,
        played: Seq<Seq<T>>,
    )
        requires
            Self::is_frame_run(recording, recording_written, recorded),
            recording[0].wf(),
            recording[0].spec_state() == LooperState::Recording,
            recording[0].spec_length() == 0,
            recording[0].spec_start_cursor() == recording[0].spec_scratch().spec_cursor(),
            0 < recorded.len() <= recording[0].spec_scratch().spec_max_len(),
            recording[0].spec_scratch().spec_cursor() + recorded.len() <= usize::MAX,
            forall|k: int|
                0 <= k < recorded.len() ==> (#[trigger] recorded[k]).len()
                    == recording[0].spec_scratch().spec_buffer().spec_num_channels(),
            playing[0].wf(),
            Self::is_stopped_from(playing[0], recording[recorded.len() as int]),
            Self::is_frame_run(playing, playing_written, played),
        ensures
            forall|k: int, c: int|
                0 <= k < played.len() && 0 <= c < recording[0].spec_scratch().spec_buffer().spec_num_channels()
                    ==> #[trigger] playing[k].output_for(c) == LooperOutput::Playback(
                    recorded[k % (recorded.len() as int)][c],
                ),
    {
        let n = recorded.len() as int;
        Self::lemma_recording_keeps_frames(recording, recording_written, recorded, playing[0]);
        Self::lemma_playback_loops_clip(playing, playing_written, played);
        assert forall|k: int, c: int|
            0 <= k < played.len() && 0 <= c < recording[0].spec_scratch().spec_buffer().spec_num_channels()
                implies #[trigger] playing[k].output_for(c) == LooperOutput::Playback(recorded[k % n][c]) by {
            assert(playing[k].output_for(c) == LooperOutput::Playback(
                playing[0].spec_clip().sample(c, (0 + k) % n),
            ));
            assert(0 + k == k);
        }
    }

    proof fn lemma_idle_prefix(before: Seq<Self>, written: Seq<Self>, frames: Seq<Seq<T>>, k: int)
        requires
            Self::is_frame_run(before, written, frames),
            before[0].spec_state() == LooperState::Empty || before[0].spec_state() == LooperState::Paused,
            0 <= k <= frames.len(),
        ensures
            before[k].spec_state() == before[0].spec_state(),
        decreases k,
    {
        if k > 0 {
            Self::lemma_idle_prefix(before, written, frames, k - 1);
            assert(Self::frame_written(before[k - 1], written[k - 1], frames[k - 1]));
        }
    }

    /// A looper that is empty or paused stays so and is silent, whatever
    /// it is given to record.
    pub proof fn lemma_idle_looper_is_silent(before: Seq<Self>, written: Seq<Self>, frames: Seq<Seq<T>>)
        requires
            Self::is_frame_run(before, written, frames),
            before[0].spec_state() == LooperState::Empty || before[0].spec_state() == LooperState::Paused,
        ensures
            forall|k: int| 0 <= k <= frames.len() ==> #[trigger] before[k].spec_state() == before[0].spec_state(),
            forall|k: int, c: int| 0 <= k < frames.len() ==> #[trigger] before[k].output_for(c) == LooperOutput::<T>::Silent,
    {
        assert forall|k: int| 0 <= k <= frames.len() implies #[trigger] before[k].spec_state()
            == before[0].spec_state() by {
            Self::lemma_idle_prefix(before, written, frames, k);
        }
        assert forall|k: int, c: int| 0 <= k < frames.len() implies #[trigger] before[k].output_for(c)
            == LooperOutput::<T>::Silent by {
            Self::lemma_idle_prefix(before, written, frames, k);
        }
    }

    proof fn lemma_scheduled_prefix(before: Seq<Self>, written: Seq<Self>, frames: Seq<Seq<T>>, k: int)
        requires
            Self::is_frame_run(before, written, frames),
            before[0].spec_state() == LooperState::RecordingScheduled,
            before[0].spec_start_cursor() == before[0].spec_scratch().spec_cursor() + frames.len(),
            frames.len() > 0,
            0 <= k <= frames.len(),
        ensures
            before[k].spec_scratch().spec_cursor() == before[0].spec_scratch().spec_cursor() + k,
            before[k].spec_start_cursor() == before[0].spec_start_cursor(),
            before[k].spec_length() == before[0].spec_length(),
            k < frames.len() ==> before[k].spec_state() == LooperState::RecordingScheduled,
            k == frames.len() ==> before[k].spec_state() == LooperState::Recording,
        decreases k,
    {
        if k > 0 {
            Self::lemma_scheduled_prefix(before, written, frames, k - 1);
            assert(Self::frame_written(before[k - 1], written[k - 1], frames[k - 1]) && Self::frame_ended(
                written[k - 1],
                before[k],
            ));
        }
    }

    /// A recording scheduled `n` frames ahead waits, silent, for exactly
    /// `n` frames and then records.
    pub proof fn lemma_scheduled_recording_waits(before: Seq<Self>, written: Seq<Self>, frames: Seq<Seq<T>>)
        requires
            Self::is_frame_run(before, written, frames),
            before[0].spec_state() == LooperState::RecordingScheduled,
            frames.len() > 0,
            before[0].spec_start_cursor() == before[0].spec_scratch().spec_cursor() + frames.len(),
        ensures
            forall|k: int|
                0 <= k < frames.len() ==> #[trigger] before[k].spec_state() == LooperState::RecordingScheduled,
            forall|k: int, c: int| 0 <= k < frames.len() ==> #[trigger] before[k].output_for(c) == LooperOutput::<T>::Silent,
            before[frames.len() as int].spec_state() == LooperState::Recording,
            before[frames.len() as int].spec_length() == before[0].spec_length(),
            before[frames.len() as int].spec_start_cursor() == before[frames.len() as int].spec_scratch().spec_cursor(),
    {
        assert forall|k: int|
            0 <= k < frames.len() implies #[trigger] before[k].spec_state() == LooperState::RecordingScheduled by {
            Self::lemma_scheduled_prefix(before, written, frames, k);
        }
        assert forall|k: int, c: int| 0 <= k < frames.len() implies #[trigger] before[k].output_for(c)
            == LooperOutput::<T>::Silent by {
            Self::lemma_scheduled_prefix(before, written, frames, k);
        }
        Self::lemma_scheduled_prefix(before, written, frames, frames.len() as int);
    }
}


impl<T: Copy> LooperHandle<T> {
    /// A recording started on an empty looper begins at the quantized
    /// position: `offset` frames from the scratch cursor `c` (at `c` itself
    /// without quantization), before the press when the offset is negative
    /// (a snap back to the closest bar). It waits for that position only
    /// when it lies ahead; the loop is empty so far, and so the loop cut on
    /// stopping is read from the scratch pad from `c + offset` on.
    pub proof fn lemma_recording_starts_at_quantized_position(
        after: Self,
        before: Self,
        quantized_offset: Option<i32>,
    )
        requires
            before.spec_state() == LooperState::Empty,
            Self::is_started_from(after, before, quantized_offset),
            before.spec_scratch().spec_cursor() <= i32::MAX,
            quantized_offset matches Some(o) ==> 0 <= before.spec_scratch().spec_cursor() + o,
        ensures
            after.spec_start_cursor() == before.spec_scratch().spec_cursor() + match quantized_offset {
                Some(o) => o as int,
                None => 0,
            },
            after.spec_length() == 0,
            after.spec_state() == (if quantized_offset matches Some(o) && o > 0 {
                LooperState::RecordingScheduled
            } else {
                LooperState::Recording
            }),
            after.spec_scratch() == before.spec_scratch(),
    {
    }

    proof fn lemma_overdub_prefix(before: Seq<Self>, written: Seq<Self>, k: int)
        requires
            before.len() == written.len() + 1,
            before[0].spec_state() == LooperState::Overdubbing,
            before[0].spec_length() > 0,
            before[0].spec_cursor() < before[0].spec_length(),
            forall|j: int|
                0 <= j < written.len() ==> {
                    &&& (#[trigger] written[j]).spec_state() == before[j].spec_state()
                    &&& written[j].spec_length() == before[j].spec_length()
                    &&& written[j].spec_cursor() == before[j].spec_cursor()
                    &&& Self::frame_ended(written[j], before[j + 1])
                },
            0 <= k < before.len(),
        ensures
            before[k].spec_state() == LooperState::Overdubbing,
            before[k].spec_length() == before[0].spec_length(),
            before[k].spec_cursor() == (before[0].spec_cursor() + k) % (before[0].spec_length() as int),
        decreases k,
    {
        let n = before[0].spec_length() as int;
        if k > 0 {
            let p = k - 1;
            Self::lemma_overdub_prefix(before, written, p);
            assert(written[p].spec_state() == before[p].spec_state());
            vstd::arithmetic::div_mod::lemma_add_mod_noop_right(1, before[0].spec_cursor() + p, n);
        } else {
            vstd::arithmetic::div_mod::lemma_small_mod(before[0].spec_cursor() as nat, n as nat);
        }
    }

    /// An overdub goes round the loop as playback does: from playback
    /// position `p` in a loop of `n > 0` frames, the `k`-th ended frame
    /// leaves the cursor at `(p + k) % n`, so overdub `k` reads and writes
    /// clip frame `(p + k) % n`. `written[k]` is the looper once frame `k`
    /// has been processed and overdubbed (state, loop and cursor untouched)
    /// and `before[k + 1]` once that frame has ended.
    pub proof fn lemma_overdub_goes_round_the_loop(before: Seq<Self>, written: Seq<Self>)
        requires
            before.len() == written.len() + 1,
            before[0].spec_state() == LooperState::Overdubbing,
            before[0].spec_length() > 0,
            before[0].spec_cursor() < before[0].spec_length(),
            forall|j: int|
                0 <= j < written.len() ==> {
                    &&& (#[trigger] written[j]).spec_state() == before[j].spec_state()
                    &&& written[j].spec_length() == before[j].spec_length()
                    &&& written[j].spec_cursor() == before[j].spec_cursor()
                    &&& Self::frame_ended(written[j], before[j + 1])
                },
        ensures
            forall|k: int|
                0 <= k < before.len() ==> {
                    &&& (#[trigger] before[k]).spec_state() == LooperState::Overdubbing
                    &&& before[k].spec_length() == before[0].spec_length()
                    &&& before[k].spec_cursor() == (before[0].spec_cursor() + k) % (
                    before[0].spec_length() as int)
                    &&& forall|c: int|
                        #[trigger] before[k].output_for(c) == LooperOutput::Overdub(
                            before[k].spec_clip().sample(
                                c,
                                (before[0].spec_cursor() + k) % (before[0].spec_length() as int),
                            ),
                        )
                },
    {
        assert forall|k: int| 0 <= k < before.len() implies {
            &&& (#[trigger] before[k]).spec_state() == LooperState::Overdubbing
            &&& before[k].spec_length() == before[0].spec_length()
            &&& before[k].spec_cursor() == (before[0].spec_cursor() + k) % (before[0].spec_length() as int)
            &&& forall|c: int|
                #[trigger] before[k].output_for(c) == LooperOutput::Overdub(
                    before[k].spec_clip().sample(
                        c,
                        (before[0].spec_cursor() + k) % (before[0].spec_length() as int),
                    ),
                )
        } by {
            Self::lemma_overdub_prefix(before, written, k);
        }
    }
}

} // verus!
