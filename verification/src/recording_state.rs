use vstd::prelude::*;

use crate::sample_buffer::SampleBuffer;

verus! {

/// The recording state of a single-clip looper.
#[derive(Debug, PartialEq, Eq, Structural, Clone, Copy)]
pub enum RecordingState {
    Empty,
    Recording,
    Playing,
}

impl RecordingState {
    /// The number that stands for this state.
    pub open spec fn spec_to_usize(self) -> usize {
        match self {
            RecordingState::Empty => 0,
            RecordingState::Recording => 1,
            RecordingState::Playing => 2,
        }
    }

    pub fn is_empty(&self) -> (r: bool)
        ensures
            r == (*self == RecordingState::Empty),
    {
        match self {
            RecordingState::Empty => true,
            _ => false,
        }
    }

    /// The state whose number is `value`, if there is one.
    pub fn from_usize(value: usize) -> (r: Option<RecordingState>)
        ensures
            value <= 2 <==> r is Some,
            r matches Some(s) ==> s.spec_to_usize() == value,
    {
        if value == 0 {
            Some(RecordingState::Empty)
        } else if value == 1 {
            Some(RecordingState::Recording)
        } else if value == 2 {
            Some(RecordingState::Playing)
        } else {
            None
        }
    }
}

/// How the start and end of a loop are quantized.
#[derive(Debug, PartialEq, Eq, Structural, Clone, Copy)]
pub enum LooperQuantizationModeType {
    NoQuantization,
    SnapNext,
    SnapClosest,
}

impl LooperQuantizationModeType {
    /// The number that stands for this mode.
    pub open spec fn spec_to_usize(self) -> usize {
        match self {
            LooperQuantizationModeType::NoQuantization => 0,
            LooperQuantizationModeType::SnapNext => 1,
            LooperQuantizationModeType::SnapClosest => 2,
        }
    }

    /// The mode whose number is `value`, if there is one.
    pub fn from_usize(value: usize) -> (r: Option<LooperQuantizationModeType>)
        ensures
            value <= 2 <==> r is Some,
            r matches Some(s) ==> s.spec_to_usize() == value,
    {
        if value == 0 {
            Some(LooperQuantizationModeType::NoQuantization)
        } else if value == 1 {
            Some(LooperQuantizationModeType::SnapNext)
        } else if value == 2 {
            Some(LooperQuantizationModeType::SnapClosest)
        } else {
            None
        }
    }
}

/// A quantized position (in frames, possibly negative) brought into a
/// clip of `num_samples` frames. A negative position `-k` gives
/// `(num_samples + k) % num_samples`; a non-negative one is reduced modulo
/// `num_samples` taken as an `i32`.
pub open spec fn wrapped_position(result: i32, num_samples: usize) -> int {
    if result < 0 {
        (num_samples as int - result as int) % (num_samples as int)
    } else {
        (result as int) % ((num_samples as i32) as int)
    }
}

/// The inputs for which `wrap_quantized_position` computes without overflow
/// or division by zero.
pub open spec fn wrap_is_defined(result: i32, num_samples: usize) -> bool {
    if result < 0 {
        &&& result > i32::MIN
        &&& num_samples > 0
        &&& num_samples as int - result as int <= usize::MAX
    } else {
        (num_samples as i32) != 0
    }
}

/// Brings a quantized position into the clip (see `wrapped_position`).
pub fn wrap_quantized_position(result: i32, num_samples: usize) -> (r: usize)
    requires
        wrap_is_defined(result, num_samples),
    ensures
        r == wrapped_position(result, num_samples),
{
    if result < 0 {
        let magnitude: i32 = -result;
        (num_samples + magnitude as usize) % num_samples
    } else {
        let n: i32 = num_samples as i32;
        let m: i32 = result % n;
        m as usize
    }
}

/// The loop of a looper whose cursor moves one frame per tick.
pub struct LooperProcessorState<T> {
    recording_state: RecordingState,
    start: usize,
    end: usize,
    looper_cursor: usize,
    num_channels: usize,
    looped_clip: SampleBuffer<T>,
    quantization_mode: LooperQuantizationModeType,
}

/// The cursor after one tick: it moves one frame on; while playing, it jumps
/// back to the start of the loop once it has gone through the whole loop;
/// otherwise it wraps around the clip (a clip of no frames keeps it at 0).
pub open spec fn next_cursor(
    state: RecordingState,
    cursor: usize,
    start: usize,
    end: usize,
    num_samples: usize,
) -> int {
    let c = cursor + 1;
    if state == RecordingState::Playing {
        if end > start {
            if c >= end {
                start as int
            } else {
                c
            }
        } else {
            let loop_length = num_samples - start + end;
            let relative = if c >= start {
                c - start
            } else {
                c - end + num_samples - start
            };
            if relative >= loop_length {
                start as int
            } else {
                c
            }
        }
    } else if num_samples == 0 {
        0
    } else {
        c % (num_samples as int)
    }
}

/// The number of frames a playing loop from `start` to `end` goes through
/// before it jumps back to `start`; a loop whose end lies before its start
/// goes round the end of a clip of `num_samples` frames.
pub open spec fn loop_span(start: usize, end: usize, num_samples: usize) -> int {
    if end > start {
        end - start
    } else {
        num_samples - start + end
    }
}

/// While a loop plays, its cursor stays within it: from a position in the
/// `loop_span` frames from `start`, the next tick lands in them again.
pub proof fn lemma_playing_cursor_stays_in_loop(cursor: usize, start: usize, end: usize, num_samples: usize)
    requires
        loop_span(start, end, num_samples) > 0,
        start <= cursor < start + loop_span(start, end, num_samples),
        cursor < usize::MAX,
    ensures
        start <= next_cursor(RecordingState::Playing, cursor, start, end, num_samples) < start
            + loop_span(start, end, num_samples),
{
}

impl<T: Copy> LooperProcessorState<T> {
    pub closed spec fn wf(self) -> bool {
        self.looped_clip.wf()
    }

    pub closed spec fn spec_recording_state(self) -> RecordingState {
        self.recording_state
    }

    pub closed spec fn spec_start(self) -> usize {
        self.start
    }

    pub closed spec fn spec_end(self) -> usize {
        self.end
    }

    pub closed spec fn spec_cursor(self) -> usize {
        self.looper_cursor
    }

    pub closed spec fn spec_clip(self) -> SampleBuffer<T> {
        self.looped_clip
    }

    pub closed spec fn spec_quantization_mode(self) -> LooperQuantizationModeType {
        self.quantization_mode
    }

    pub closed spec fn spec_num_channels(self) -> usize {
        self.num_channels
    }

    /// The number of frames of the clip.
    pub open spec fn clip_len(self) -> nat {
        self.spec_clip().spec_num_samples()
    }

    /// The end of the loop: the cursor while recording, the stored end
    /// otherwise.
    pub open spec fn spec_end_cursor(self) -> usize {
        if self.spec_recording_state() == RecordingState::Recording {
            self.spec_cursor()
        } else {
            self.spec_end()
        }
    }

    /// The length of the loop; a loop whose end lies before its start goes
    /// round the end of the clip.
    pub open spec fn spec_num_samples(self) -> int {
        if self.spec_recording_state() == RecordingState::Empty {
            0
        } else if self.spec_end_cursor() >= self.spec_start() {
            self.spec_end_cursor() - self.spec_start()
        } else {
            self.clip_len() - self.spec_start() + self.spec_end_cursor()
        }
    }

    /// The length of a loop is how far the cursor goes from its start to
    /// its end around the clip: moving `num_samples` frames on from the
    /// start (wrapping at the clip's end) reaches the end, the length is
    /// at most the clip's, and for a loop whose end is not its start it is
    /// the span the playing cursor stays within (`loop_span`).
    pub proof fn lemma_loop_length_reaches_end(self)
        requires
            self.spec_recording_state() != RecordingState::Empty,
            self.spec_start() < self.clip_len(),
            self.spec_end_cursor() <= self.clip_len(),
            self.clip_len() <= usize::MAX,
        ensures
            0 <= self.spec_num_samples() <= self.clip_len(),
            (self.spec_start() + self.spec_num_samples()) % (self.clip_len() as int)
                == (self.spec_end_cursor() as int) % (self.clip_len() as int),
            self.spec_end_cursor() != self.spec_start() ==> self.spec_num_samples() == loop_span(
                self.spec_start(),
                self.spec_end_cursor(),
                self.clip_len() as usize,
            ),
    {
        let n = self.clip_len() as int;
        if self.spec_end_cursor() < self.spec_start() {
            vstd::arithmetic::div_mod::lemma_mod_add_multiples_vanish(self.spec_end_cursor() as int, n);
        }
    }

    /// `other` has the same loop, clip and settings as `self`.
    pub open spec fn same_loop(self, other: Self) -> bool {
        &&& self.spec_recording_state() == other.spec_recording_state()
        &&& self.spec_start() == other.spec_start()
        &&& self.spec_end() == other.spec_end()
        &&& self.spec_clip() == other.spec_clip()
        &&& self.spec_quantization_mode() == other.spec_quantization_mode()
        &&& self.spec_num_channels() == other.spec_num_channels()
    }

    /// An empty loop over an empty clip, quantized to the closest bar.
    pub fn new() -> (r: Self)
        ensures
            r.wf(),
            r.spec_recording_state() == RecordingState::Empty,
            r.spec_start() == 0,
            r.spec_end() == 0,
            r.spec_cursor() == 0,
            r.clip_len() == 0,
            r.spec_num_channels() == 2,
            r.spec_quantization_mode() == LooperQuantizationModeType::SnapClosest,
    {
        LooperProcessorState {
            recording_state: RecordingState::Empty,
            start: 0,
            end: 0,
            looper_cursor: 0,
            num_channels: 2,
            looped_clip: SampleBuffer::new(),
            quantization_mode: LooperQuantizationModeType::SnapClosest,
        }
    }

    /// Replaces the clip; the loop and the cursor are kept.
    pub fn set_clip(&mut self, clip: SampleBuffer<T>)
        requires
            old(self).wf(),
            clip.wf(),
        ensures
            final(self).wf(),
            final(self).spec_clip() == clip,
            final(self).spec_recording_state() == old(self).spec_recording_state(),
            final(self).spec_start() == old(self).spec_start(),
            final(self).spec_end() == old(self).spec_end(),
            final(self).spec_cursor() == old(self).spec_cursor(),
            final(self).spec_quantization_mode() == old(self).spec_quantization_mode(),
            final(self).spec_num_channels() == old(self).spec_num_channels(),
    {
        self.looped_clip = clip;
    }

    /// Sets the quantization mode; nothing else changes.
    pub fn set_quantization_mode(&mut self, mode: LooperQuantizationModeType)
        ensures
            final(self).spec_quantization_mode() == mode,
            final(self).spec_recording_state() == old(self).spec_recording_state(),
            final(self).spec_start() == old(self).spec_start(),
            final(self).spec_end() == old(self).spec_end(),
            final(self).spec_cursor() == old(self).spec_cursor(),
            final(self).spec_clip() == old(self).spec_clip(),
            final(self).spec_num_channels() == old(self).spec_num_channels(),
            old(self).wf() ==> final(self).wf(),
    {
        self.quantization_mode = mode;
    }

    /// The quantization mode.
    pub fn quantization_mode(&self) -> (r: LooperQuantizationModeType)
        ensures
            r == self.spec_quantization_mode(),
    {
        self.quantization_mode
    }

    /// The recording state.
    pub fn recording_state(&self) -> (r: RecordingState)
        ensures
            r == self.spec_recording_state(),
    {
        self.recording_state
    }

    /// The cursor, in frames.
    pub fn looper_cursor(&self) -> (r: usize)
        ensures
            r == self.spec_cursor(),
    {
        self.looper_cursor
    }

    /// The clip.
    pub fn looped_clip(&self) -> (r: &SampleBuffer<T>)
        ensures
            *r == self.spec_clip(),
    {
        &self.looped_clip
    }

    /// Moves the cursor one frame on (see `next_cursor`).
    pub fn increment_cursor(&mut self)
        requires
            old(self).wf(),
            old(self).spec_cursor() < usize::MAX,
        ensures
            final(self).wf(),
            final(self).same_loop(*old(self)),
            final(self).spec_cursor() == next_cursor(
                old(self).spec_recording_state(),
                old(self).spec_cursor(),
                old(self).spec_start(),
                old(self).spec_end(),
                old(self).clip_len() as usize,
            ),
    {
        let cursor = self.looper_cursor + 1;
        let num_samples = self.looped_clip.num_samples();
        let next = if self.recording_state == RecordingState::Playing {
            let start = self.start;
            let end = self.end;
            if end > start {
                if cursor >= end {
                    start
                } else {
                    cursor
                }
            } else {
                let c = cursor as i128;
                let s = start as i128;
                let e = end as i128;
                let n = num_samples as i128;
                let loop_length = n - s + e;
                let relative = if c >= s {
                    c - s
                } else {
                    c - e + n - s
                };
                if relative >= loop_length {
                    start
                } else {
                    cursor
                }
            }
        } else if num_samples == 0 {
            0
        } else {
            cursor % num_samples
        };
        self.looper_cursor = next;
    }

    /// Empties the loop and overwrites the clip with `silence`.
    pub fn clear(&mut self, silence: T)
        requires
            old(self).wf(),
        ensures
            final(self).wf(),
            final(self).spec_recording_state() == RecordingState::Empty,
            final(self).spec_cursor() == 0,
            final(self).spec_start() == 0,
            final(self).spec_end() == 0,
            final(self).spec_quantization_mode() == old(self).spec_quantization_mode(),
            final(self).spec_num_channels() == old(self).spec_num_channels(),
            final(self).spec_clip().spec_num_channels() == old(self).spec_clip().spec_num_channels(),
            final(self).clip_len() == old(self).clip_len(),
            forall|c: int, i: int|
                0 <= c < final(self).spec_clip().spec_num_channels() && 0 <= i < final(self).clip_len()
                    ==> #[trigger] final(self).spec_clip().sample(c, i) == silence,
    {
        self.recording_state = RecordingState::Empty;
        self.looper_cursor = 0;
        self.start = 0;
        self.end = 0;
        self.looped_clip.fill(silence);
    }

    /// One tick: a recording whose button was released ends at the quantized
    /// cursor (and plays once the cursor has reached it); an empty looper
    /// whose button was pressed starts at the quantized cursor (and records
    /// once the cursor has reached it). Then the cursor moves on.
    pub fn on_tick(&mut self, is_recording: bool, looper_cursor: usize, quantized_cursor: usize)
        requires
            old(self).wf(),
            old(self).spec_cursor() < usize::MAX,
        ensures
            final(self).wf(),
            final(self).spec_clip() == old(self).spec_clip(),
            final(self).spec_quantization_mode() == old(self).spec_quantization_mode(),
            final(self).spec_num_channels() == old(self).spec_num_channels(),
            ({
                let s = old(self).spec_recording_state();
                let ended = s == RecordingState::Recording && !is_recording;
                let started = s == RecordingState::Empty && is_recording;
                let state = if ended && looper_cursor >= quantized_cursor {
                    RecordingState::Playing
                } else if started && looper_cursor >= quantized_cursor {
                    RecordingState::Recording
                } else {
                    s
                };
                let start = if started {
                    quantized_cursor
                } else {
                    old(self).spec_start()
                };
                let end = if ended {
                    quantized_cursor
                } else {
                    old(self).spec_end()
                };
                &&& final(self).spec_recording_state() == state
                &&& final(self).spec_start() == start
                &&& final(self).spec_end() == end
                &&& final(self).spec_cursor() == next_cursor(
                    state,
                    old(self).spec_cursor(),
                    start,
                    end,
                    old(self).clip_len() as usize,
                )
            }),
    {
        match self.recording_state {
            RecordingState::Recording if !is_recording => {
                if looper_cursor >= quantized_cursor {
                    self.recording_state = RecordingState::Playing;
                }
                self.end = quantized_cursor;
            },
            RecordingState::Empty if is_recording => {
                if looper_cursor >= quantized_cursor {
                    self.recording_state = RecordingState::Recording;
                }
                self.start = quantized_cursor;
            },
            _ => {},
        }
        self.increment_cursor();
    }

    /// The end of the loop: the cursor while recording, the stored end
    /// otherwise.
    pub fn end_cursor(&self) -> (r: usize)
        ensures
            r == self.spec_end_cursor(),
    {
        if self.recording_state == RecordingState::Recording {
            self.looper_cursor
        } else {
            self.end
        }
    }

    /// The length of the loop, in frames.
    pub fn num_samples(&self) -> (r: usize)
        requires
            self.spec_end_cursor() < self.spec_start() && self.spec_recording_state()
                != RecordingState::Empty ==> self.clip_len() >= self.spec_start(),
        ensures
            r == self.spec_num_samples(),
    {
        if self.recording_state == RecordingState::Empty {
            return 0;
        }
        let start = self.start;
        let end = self.end_cursor();
        if end >= start {
            end - start
        } else {
            self.looped_clip.num_samples() - start + end
        }
    }

    /// The clip positions of the frames of the loop, in playing order: the
    /// `i`-th frame of the loop is at `(start + i) % clip_len`.
    pub fn loop_indices(&self) -> (r: Vec<usize>)
        requires
            self.spec_end_cursor() < self.spec_start() && self.spec_recording_state()
                != RecordingState::Empty ==> self.clip_len() >= self.spec_start(),
            self.spec_num_samples() > 0 ==> self.clip_len() > 0 && self.spec_start()
                + self.spec_num_samples() <= usize::MAX,
        ensures
            r@.len() == self.spec_num_samples(),
            forall|i: int|
                0 <= i < r@.len() ==> #[trigger] r@[i] == (self.spec_start() + i) % (
                self.clip_len() as int),
    {
        let start = self.start;
        let n = self.num_samples();
        let clip_len = self.looped_clip.num_samples();
        let mut r: Vec<usize> = Vec::new();
        let mut i: usize = 0;
        while i < n
            invariant
                i <= n,
                n == self.spec_num_samples(),
                n > 0 ==> clip_len > 0 && start + n <= usize::MAX,
                clip_len == self.clip_len(),
                start == self.spec_start(),
                r@.len() == i,
                forall|j: int| 0 <= j < i ==> #[trigger] r@[j] == (start + j) % (clip_len as int),
            decreases n - i,
        {
            r.push((start + i) % clip_len);
            i = i + 1;
        }
        r
    }
}

/// The transport of a single-clip looper: the flags the user toggles and the
/// loop they drive.
pub struct LooperProcessorHandle<T> {
    is_recording: bool,
    is_playing_back: bool,
    playback_input: bool,
    should_clear: bool,
    state: LooperProcessorState<T>,
}

impl<T: Copy> LooperProcessorHandle<T> {
    pub closed spec fn spec_is_recording(self) -> bool {
        self.is_recording
    }

    pub closed spec fn spec_is_playing_back(self) -> bool {
        self.is_playing_back
    }

    pub closed spec fn spec_playback_input(self) -> bool {
        self.playback_input
    }

    pub closed spec fn spec_should_clear(self) -> bool {
        self.should_clear
    }

    pub closed spec fn spec_state(self) -> LooperProcessorState<T> {
        self.state
    }

    /// The loop is unchanged.
    pub open spec fn same_state(self, other: Self) -> bool {
        self.spec_state() == other.spec_state()
    }

    /// A stopped handle over `state`, forwarding its input.
    pub fn new(state: LooperProcessorState<T>) -> (r: Self)
        ensures
            !r.spec_is_recording(),
            !r.spec_is_playing_back(),
            r.spec_playback_input(),
            !r.spec_should_clear(),
            r.spec_state() == state,
    {
        LooperProcessorHandle {
            is_recording: false,
            is_playing_back: false,
            playback_input: true,
            should_clear: false,
            state,
        }
    }

    /// The length of the loop.
    pub fn num_samples(&self) -> (r: usize)
        requires
            self.spec_state().spec_end_cursor() < self.spec_state().spec_start()
                && self.spec_state().spec_recording_state() != RecordingState::Empty
                ==> self.spec_state().clip_len() >= self.spec_state().spec_start(),
        ensures
            r == self.spec_state().spec_num_samples(),
    {
        self.state.num_samples()
    }

    /// The clip positions of the frames of the loop (see
    /// `LooperProcessorState::loop_indices`).
    pub fn loop_indices(&self) -> (r: Vec<usize>)
        requires
            self.spec_state().spec_end_cursor() < self.spec_state().spec_start()
                && self.spec_state().spec_recording_state() != RecordingState::Empty
                ==> self.spec_state().clip_len() >= self.spec_state().spec_start(),
            self.spec_state().spec_num_samples() > 0 ==> self.spec_state().clip_len() > 0
                && self.spec_state().spec_start() + self.spec_state().spec_num_samples()
                <= usize::MAX,
        ensures
            r@.len() == self.spec_state().spec_num_samples(),
            forall|i: int|
                0 <= i < r@.len() ==> #[trigger] r@[i] == (self.spec_state().spec_start() + i) % (
                self.spec_state().clip_len() as int),
    {
        self.state.loop_indices()
    }

    /// The loop.
    pub fn state(&self) -> (r: &LooperProcessorState<T>)
        ensures
            *r == self.spec_state(),
    {
        &self.state
    }

    /// The loop, for the audio thread to move.
    pub fn state_mut(&mut self) -> (r: &mut LooperProcessorState<T>)
        ensures
            *r == old(self).spec_state(),
            final(self).spec_state() == *final(r),
            final(self).spec_is_recording() == old(self).spec_is_recording(),
            final(self).spec_is_playing_back() == old(self).spec_is_playing_back(),
            final(self).spec_playback_input() == old(self).spec_playback_input(),
            final(self).spec_should_clear() == old(self).spec_should_clear(),
    {
        &mut self.state
    }

    /// Whether the input is forwarded to the output.
    pub fn store_playback_input(&mut self, value: bool)
        ensures
            final(self).spec_playback_input() == value,
            final(self).spec_is_recording() == old(self).spec_is_recording(),
            final(self).spec_is_playing_back() == old(self).spec_is_playing_back(),
            final(self).spec_should_clear() == old(self).spec_should_clear(),
            final(self).same_state(*old(self)),
    {
        self.playback_input = value;
    }

    /// Starts recording.
    pub fn start_recording(&mut self)
        ensures
            final(self).spec_is_recording(),
            final(self).spec_is_playing_back() == old(self).spec_is_playing_back(),
            final(self).spec_playback_input() == old(self).spec_playback_input(),
            final(self).spec_should_clear() == old(self).spec_should_clear(),
            final(self).same_state(*old(self)),
    {
        self.is_recording = true;
    }

    /// Stops everything and asks the audio thread to clear the loop.
    pub fn clear(&mut self)
        ensures
            !final(self).spec_is_recording(),
            !final(self).spec_is_playing_back(),
            final(self).spec_should_clear(),
            final(self).spec_playback_input() == old(self).spec_playback_input(),
            final(self).same_state(*old(self)),
    {
        self.stop();
        self.should_clear = true;
    }

    /// Stops recording and playback.
    pub fn stop(&mut self)
        ensures
            !final(self).spec_is_recording(),
            !final(self).spec_is_playing_back(),
            final(self).spec_playback_input() == old(self).spec_playback_input(),
            final(self).spec_should_clear() == old(self).spec_should_clear(),
            final(self).same_state(*old(self)),
    {
        self.is_recording = false;
        self.is_playing_back = false;
    }

    /// Starts playback.
    pub fn play(&mut self)
        ensures
            final(self).spec_is_playing_back(),
            final(self).spec_is_recording() == old(self).spec_is_recording(),
            final(self).spec_playback_input() == old(self).spec_playback_input(),
            final(self).spec_should_clear() == old(self).spec_should_clear(),
            final(self).same_state(*old(self)),
    {
        self.is_playing_back = true;
    }

    /// Stops when playing back, plays otherwise.
    pub fn toggle_playback(&mut self)
        ensures
            final(self).spec_is_playing_back() == !old(self).spec_is_playing_back(),
            final(self).spec_is_recording() == (old(self).spec_is_recording() && !old(self).spec_is_playing_back()),
            final(self).spec_playback_input() == old(self).spec_playback_input(),
            final(self).spec_should_clear() == old(self).spec_should_clear(),
            final(self).same_state(*old(self)),
    {
        if self.is_playing_back {
            self.stop();
        } else {
            self.play();
        }
    }

    /// Stops a recording (and plays it back), or starts one.
    pub fn toggle_recording(&mut self)
        ensures
            final(self).spec_is_recording() == !old(self).spec_is_recording(),
            final(self).spec_is_playing_back() == (old(self).spec_is_recording() || old(self).spec_is_playing_back()),
            final(self).spec_playback_input() == old(self).spec_playback_input(),
            final(self).spec_should_clear() == old(self).spec_should_clear(),
            final(self).same_state(*old(self)),
    {
        if self.is_recording {
            self.stop_recording();
        } else {
            self.start_recording();
        }
    }

    /// Whether the looper is recording.
    pub fn is_recording(&self) -> (r: bool)
        ensures
            r == self.spec_is_recording(),
    {
        self.is_recording
    }

    /// Whether the looper is playing back.
    pub fn is_playing_back(&self) -> (r: bool)
        ensures
            r == self.spec_is_playing_back(),
    {
        self.is_playing_back
    }

    /// Stops recording and plays back what was recorded.
    pub fn stop_recording(&mut self)
        ensures
            !final(self).spec_is_recording(),
            final(self).spec_is_playing_back(),
            final(self).spec_playback_input() == old(self).spec_playback_input(),
            final(self).spec_should_clear() == old(self).spec_should_clear(),
            final(self).same_state(*old(self)),
    {
        self.is_recording = false;
        self.is_playing_back = true;
    }

    /// The position of the cursor relative to the start of the loop.
    pub fn playhead(&self) -> (r: usize)
        requires
            self.spec_state().spec_end() > self.spec_state().spec_start()
                ==> self.spec_state().spec_cursor() >= self.spec_state().spec_start(),
            self.spec_state().spec_end() <= self.spec_state().spec_start() ==> self.spec_state().clip_len()
                >= self.spec_state().spec_start() && self.spec_state().spec_cursor()
                + self.spec_state().clip_len() - self.spec_state().spec_start() <= usize::MAX,
        ensures
            r == (if self.spec_state().spec_end() > self.spec_state().spec_start() {
                self.spec_state().spec_cursor() - self.spec_state().spec_start()
            } else {
                self.spec_state().spec_cursor() + (self.spec_state().clip_len()
                    - self.spec_state().spec_start())
            }),
    {
        let start = self.state.start;
        let end = self.state.end;
        let cursor = self.state.looper_cursor;
        let clip_len = self.state.looped_clip.num_samples();
        if end > start {
            cursor - start
        } else {
            cursor + (clip_len - start)
        }
    }

    /// Acknowledges a clear request: the flag is reset whatever `_value` is.
    pub fn set_should_clear(&mut self, _value: bool)
        ensures
            !final(self).spec_should_clear(),
            final(self).spec_is_recording() == old(self).spec_is_recording(),
            final(self).spec_is_playing_back() == old(self).spec_is_playing_back(),
            final(self).spec_playback_input() == old(self).spec_playback_input(),
            final(self).same_state(*old(self)),
    {
        self.should_clear = false;
    }

    /// Stops a recording that has filled the clip: the loop then plays from
    /// its start and ends one frame before `looper_cursor`. Returns whether
    /// the recording may go on.
    pub fn force_stop_if_overflowing(&mut self, looper_cursor: usize) -> (r: bool)
        requires
            old(self).spec_state().spec_end_cursor() < old(self).spec_state().spec_start()
                && old(self).spec_state().spec_recording_state() != RecordingState::Empty
                ==> old(self).spec_state().clip_len() >= old(self).spec_state().spec_start(),
            old(self).spec_is_recording() ==> old(self).spec_state().clip_len() >= 1,
            old(self).spec_is_recording() && old(self).spec_state().spec_num_samples() >= old(self).spec_state().clip_len() - 1 ==> looper_cursor >= 1,
        ensures
            r == !(old(self).spec_is_recording() && old(self).spec_state().spec_num_samples() >= old(self).spec_state().clip_len() - 1),
            r ==> *final(self) == *old(self),
            !r ==> {
                &&& !final(self).spec_is_recording()
                &&& final(self).spec_is_playing_back()
                &&& final(self).spec_playback_input() == old(self).spec_playback_input()
                &&& final(self).spec_should_clear() == old(self).spec_should_clear()
                &&& final(self).spec_state().spec_recording_state() == RecordingState::Playing
                &&& final(self).spec_state().spec_cursor() == old(self).spec_state().spec_start()
                &&& final(self).spec_state().spec_end() == looper_cursor - 1
                &&& final(self).spec_state().spec_start() == old(self).spec_state().spec_start()
                &&& final(self).spec_state().spec_clip() == old(self).spec_state().spec_clip()
                &&& final(self).spec_state().spec_quantization_mode() == old(self).spec_state().spec_quantization_mode()
                &&& final(self).spec_state().spec_num_channels() == old(self).spec_state().spec_num_channels()
            },
    {
        if self.is_recording && self.state.num_samples() >= self.state.looped_clip.num_samples() - 1 {
            self.state.recording_state = RecordingState::Playing;
            self.state.looper_cursor = self.state.start;
            self.state.end = looper_cursor - 1;
            self.stop_recording();
            false
        } else {
            true
        }
    }
}

} // verus!
