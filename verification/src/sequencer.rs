use vstd::prelude::*;

use crate::sample_buffer::SampleBuffer;

verus! {

/// How to cut a loop into slices and how long a shuffled sequence to build.
#[derive(Debug, Clone, Copy, PartialEq, Eq, Structural)]
pub struct LoopSequencerParams {
    pub num_slices: usize,
    pub sequence_length: usize,
    pub num_samples: usize,
}

/// A section of the loop, by frame positions.
#[derive(Debug, Clone, Copy, PartialEq, Eq, Structural)]
pub struct VirtualLoopSection {
    pub start: usize,
    pub end: usize,
}

/// A shuffled sequence of loop sections, each played for
/// `sequence_step_size` frames.
#[derive(Debug, Clone, PartialEq, Eq)]
pub struct LoopSequencerOutput {
    pub sequence: Vec<VirtualLoopSection>,
    pub sequence_step_size: usize,
}

/// Where the sequencer reads for one frame: the clip position, and how far
/// into its step the frame lies.
#[derive(Debug, Clone, Copy, PartialEq, Eq, Structural)]
pub struct SequencerFrame {
    pub index: usize,
    pub overflow: usize,
}

/// The length of each slice.
pub open spec fn slice_length(params: LoopSequencerParams) -> int {
    params.num_samples as int / params.num_slices as int
}

/// The length of each step of the sequence.
pub open spec fn step_length(params: LoopSequencerParams) -> int {
    params.num_samples as int / params.sequence_length as int
}

/// The section that plays slice `slice_num`: the slice, cut to the step
/// length.
pub open spec fn slice_section(params: LoopSequencerParams, slice_num: int) -> VirtualLoopSection {
    let start = slice_num * slice_length(params);
    let end = start + slice_length(params);
    let step_end = start + step_length(params);
    VirtualLoopSection {
        start: start as usize,
        end: (if end <= step_end {
            end
        } else {
            step_end
        }) as usize,
    }
}

/// The positions of every section fit in a `usize`.
pub open spec fn sequencer_fits(params: LoopSequencerParams) -> bool {
    params.num_slices > 0 && params.sequence_length > 0 ==> (params.num_slices - 1) * slice_length(params)
        + step_length(params) <= usize::MAX
}

/// The sequence built from random draws: step `k` plays slice
/// `draws[k] % num_slices`. No slices or no steps give an empty sequence
/// with step size `0`.
pub open spec fn sequence_from_draws(params: LoopSequencerParams, draws: Seq<u64>) -> Seq<
    VirtualLoopSection,
> {
    if params.sequence_length == 0 || params.num_slices == 0 {
        Seq::empty()
    } else {
        Seq::new(
            params.sequence_length as nat,
            |k: int| slice_section(params, draws[k] as int % params.num_slices as int),
        )
    }
}

/// The step size of the sequence.
pub open spec fn sequence_step_size(params: LoopSequencerParams) -> int {
    if params.sequence_length == 0 || params.num_slices == 0 {
        0
    } else {
        step_length(params)
    }
}

proof fn lemma_slice_bounds(params: LoopSequencerParams, slice_num: int)
    requires
        params.num_slices > 0,
        params.sequence_length > 0,
        0 <= slice_num < params.num_slices,
        sequencer_fits(params),
    ensures
        0 <= slice_num * slice_length(params) <= (params.num_slices - 1) * slice_length(params),
        slice_num * slice_length(params) + slice_length(params) <= params.num_samples,
        slice_num * slice_length(params) + step_length(params) <= usize::MAX,
{
    let l = slice_length(params);
    let n = params.num_slices as int;
    assert(l >= 0) by (nonlinear_arith)
        requires
            l == params.num_samples as int / n,
            n > 0,
    ;
    assert(0 <= slice_num * l <= (n - 1) * l) by (nonlinear_arith)
        requires
            0 <= slice_num <= n - 1,
            l >= 0,
    ;
    assert(slice_num * l + l <= n * l) by (nonlinear_arith)
        requires
            slice_num <= n - 1,
            l >= 0,
    ;
    assert(n * l <= params.num_samples) by (nonlinear_arith)
        requires
            l == params.num_samples as int / n,
            n > 0,
    ;
}

/// Builds the sequence for the given random draws (see
/// `sequence_from_draws`).
pub fn build_sequence(params: &LoopSequencerParams, draws: &Vec<u64>) -> (r: LoopSequencerOutput)
    requires
        sequencer_fits(*params),
        draws@.len() >= params.sequence_length,
    ensures
        r.sequence@ == sequence_from_draws(*params, draws@),
        r.sequence_step_size == sequence_step_size(*params),
{
    if params.sequence_length == 0 || params.num_slices == 0 {
        return LoopSequencerOutput { sequence: Vec::new(), sequence_step_size: 0 };
    }
    let slice_len = params.num_samples / params.num_slices;
    let max_step_len = params.num_samples / params.sequence_length;
    let mut slices: Vec<VirtualLoopSection> = Vec::new();
    let mut slice_num: usize = 0;
    while slice_num < params.num_slices
        invariant
            params.num_slices > 0,
            params.sequence_length > 0,
            sequencer_fits(*params),
            slice_len == slice_length(*params),
            max_step_len == step_length(*params),
            slice_num <= params.num_slices,
            slices@.len() == slice_num,
            forall|j: int|
                0 <= j < slice_num ==> #[trigger] slices@[j] == (VirtualLoopSection {
                    start: (j * slice_len) as usize,
                    end: (j * slice_len + slice_len) as usize,
                }),
        decreases params.num_slices - slice_num,
    {
        proof {
            lemma_slice_bounds(*params, slice_num as int);
        }
        let slice_start = slice_num * slice_len;
        let slice_end = slice_start + slice_len;
        slices.push(VirtualLoopSection { start: slice_start, end: slice_end });
        slice_num = slice_num + 1;
    }
    let mut sequence: Vec<VirtualLoopSection> = Vec::new();
    let mut step_num: usize = 0;
    while step_num < params.sequence_length
        invariant
            params.num_slices > 0,
            params.sequence_length > 0,
            sequencer_fits(*params),
            draws@.len() >= params.sequence_length,
            slice_len == slice_length(*params),
            max_step_len == step_length(*params),
            slices@.len() == params.num_slices,
            forall|j: int|
                0 <= j < params.num_slices ==> #[trigger] slices@[j] == (VirtualLoopSection {
                    start: (j * slice_len) as usize,
                    end: (j * slice_len + slice_len) as usize,
                }),
            step_num <= params.sequence_length,
            sequence@.len() == step_num,
            forall|k: int|
                0 <= k < step_num ==> #[trigger] sequence@[k] == slice_section(
                    *params,
                    draws@[k] as int % params.num_slices as int,
                ),
        decreases params.sequence_length - step_num,
    {
        let index = (draws[step_num] % (params.num_slices as u64)) as usize;
        let slice = slices[index];
        proof {
            lemma_slice_bounds(*params, index as int);
        }
        let end = slice.start + max_step_len;
        let section_end = if slice.end <= end {
            slice.end
        } else {
            end
        };
        sequence.push(VirtualLoopSection { start: slice.start, end: section_end });
        step_num = step_num + 1;
    }
    proof {
        assert(sequence@ =~= sequence_from_draws(*params, draws@));
    }
    LoopSequencerOutput { sequence, sequence_step_size: max_step_len }
}

/// A uniformly random 64-bit number from the thread-local generator.
///
/// Calls `rand::random::<u64>()`. Nothing is claimed of the value.
#[verifier::external_body]
fn random_u64() -> u64 {
    rand::random::<u64>()
}

/// `section` plays one of the slices of the loop.
pub open spec fn is_slice_section(params: LoopSequencerParams, section: VirtualLoopSection) -> bool {
    exists|slice_num: int|
        0 <= slice_num < params.num_slices && section == #[trigger] slice_section(params, slice_num)
}

/// Cuts the loop into `num_slices` slices and builds a sequence of
/// `sequence_length` randomly chosen slices.
pub fn run_sequencer(params: &LoopSequencerParams) -> (r: LoopSequencerOutput)
    requires
        sequencer_fits(*params),
    ensures
        r.sequence_step_size == sequence_step_size(*params),
        r.sequence@.len() == (if params.sequence_length == 0 || params.num_slices == 0 {
            0
        } else {
            params.sequence_length as int
        }),
        forall|k: int|
            0 <= k < r.sequence@.len() ==> is_slice_section(*params, #[trigger] r.sequence@[k]),
{
    let mut draws: Vec<u64> = Vec::new();
    let mut i: usize = 0;
    while i < params.sequence_length
        invariant
            i <= params.sequence_length,
            draws@.len() == i,
        decreases params.sequence_length - i,
    {
        draws.push(random_u64());
        i = i + 1;
    }
    let r = build_sequence(params, &draws);
    proof {
        assert forall|k: int| 0 <= k < r.sequence@.len() implies is_slice_section(
            *params,
            #[trigger] r.sequence@[k],
        ) by {
            let s = draws@[k] as int % params.num_slices as int;
            assert(r.sequence@[k] == slice_section(*params, s));
        }
    }
    r
}

impl LoopSequencerOutput {
    /// The frame position that the sequencer reads for playback position
    /// `cursor`: the step is `(cursor % num_samples) / step_size` (modulo the
    /// sequence length), and the frame lies `overflow` frames into the
    /// section that step plays.
    pub fn frame_position(&self, cursor: usize, num_samples: usize) -> (r: SequencerFrame)
        requires
            num_samples > 0,
            self.sequence_step_size > 0,
            self.sequence@.len() > 0,
            forall|k: int|
                0 <= k < self.sequence@.len() ==> #[trigger] self.sequence@[k].start
                    + self.sequence_step_size <= usize::MAX,
        ensures
            ({
                let c = cursor as int % num_samples as int;
                let step = (c / self.sequence_step_size as int) % self.sequence@.len() as int;
                let overflow = c % self.sequence_step_size as int;
                &&& r.overflow == overflow
                &&& r.index == (self.sequence@[step].start + overflow) % num_samples as int
            }),
    {
        let c = cursor % num_samples;
        let step = (c / self.sequence_step_size) % self.sequence.len();
        let start = self.sequence[step].start;
        let overflow = c % self.sequence_step_size;
        SequencerFrame { index: (start + overflow) % num_samples, overflow }
    }
}

/// `output` can be played: it has steps of some length, and every
/// section's positions fit in a `usize`.
pub open spec fn is_playable(output: LoopSequencerOutput) -> bool {
    &&& output.sequence_step_size > 0
    &&& output.sequence@.len() > 0
    &&& forall|k: int|
        0 <= k < output.sequence@.len() ==> #[trigger] output.sequence@[k].start + output.sequence_step_size
            <= usize::MAX
}

/// Whether a sequence can be played (see `is_playable`).
pub fn is_playable_output(output: &LoopSequencerOutput) -> (r: bool)
    ensures
        r == is_playable(*output),
{
    if output.sequence_step_size == 0 || output.sequence.len() == 0 {
        return false;
    }
    let mut k: usize = 0;
    while k < output.sequence.len()
        invariant
            k <= output.sequence@.len(),
            forall|j: int|
                0 <= j < k ==> #[trigger] output.sequence@[j].start + output.sequence_step_size
                    <= usize::MAX,
        decreases output.sequence@.len() - k,
    {
        if output.sequence[k].start > usize::MAX - output.sequence_step_size {
            return false;
        }
        k = k + 1;
    }
    true
}

/// Plays a loop in the order of a shuffled sequence of its slices: its own
/// copy of the loop, the sequence, and where playback stands.
pub struct LoopSequencerProcessor<T> {
    looped_clip: SampleBuffer<T>,
    params: Option<LoopSequencerParams>,
    output: Option<LoopSequencerOutput>,
    playhead: usize,
    cursor: usize,
}

impl<T: Copy> LoopSequencerProcessor<T> {
    pub closed spec fn wf(self) -> bool {
        self.looped_clip.wf()
    }

    pub closed spec fn spec_clip(self) -> SampleBuffer<T> {
        self.looped_clip
    }

    pub closed spec fn spec_params(self) -> Option<LoopSequencerParams> {
        self.params
    }

    pub closed spec fn spec_output(self) -> Option<LoopSequencerOutput> {
        self.output
    }

    pub closed spec fn spec_playhead(self) -> usize {
        self.playhead
    }

    pub closed spec fn spec_cursor(self) -> usize {
        self.cursor
    }

    /// A sequencer without a sequence.
    pub fn new() -> (r: Self)
        ensures
            r.wf(),
            r.spec_params() is None,
            r.spec_output() is None,
            r.spec_cursor() == 0,
            r.spec_playhead() == 0,
            r.spec_clip().spec_num_samples() == 0,
    {
        LoopSequencerProcessor {
            looped_clip: SampleBuffer::new(),
            params: None,
            output: None,
            playhead: 0,
            cursor: 0,
        }
    }

    /// The parameters of the current sequence, if there is one.
    pub fn params(&self) -> (r: Option<LoopSequencerParams>)
        ensures
            r == self.spec_params(),
    {
        self.params
    }

    /// The current sequence, if there is one.
    pub fn output(&self) -> (r: Option<&LoopSequencerOutput>)
        ensures
            r matches Some(o) ==> self.spec_output() == Some(*o),
            r is None ==> self.spec_output() is None,
    {
        match &self.output {
            Some(o) => Some(o),
            None => None,
        }
    }

    /// The clip position last played, once there is a sequence.
    pub fn playhead(&self) -> (r: Option<usize>)
        ensures
            r == (if self.spec_params() is Some {
                Some(self.spec_playhead())
            } else {
                None
            }),
    {
        match self.params {
            Some(_) => Some(self.playhead),
            None => None,
        }
    }

    /// Builds a new sequence for `params` over a copy of `clip`.
    pub fn set_params(&mut self, params: LoopSequencerParams, clip: &SampleBuffer<T>)
        requires
            old(self).wf(),
            clip.wf(),
            sequencer_fits(params),
        ensures
            final(self).wf(),
            final(self).spec_params() == Some(params),
            final(self).spec_clip().view_channels() == clip.view_channels(),
            final(self).spec_clip().spec_num_samples() == clip.spec_num_samples(),
            final(self).spec_cursor() == old(self).spec_cursor(),
            final(self).spec_playhead() == old(self).spec_playhead(),
            final(self).spec_output() matches Some(o) && {
                &&& o.sequence_step_size == sequence_step_size(params)
                &&& o.sequence@.len() == (if params.sequence_length == 0 || params.num_slices == 0 {
                    0
                } else {
                    params.sequence_length as int
                })
                &&& forall|k: int|
                    0 <= k < o.sequence@.len() ==> is_slice_section(params, #[trigger] o.sequence@[k])
            },
    {
        let output = run_sequencer(&params);
        let num_channels = clip.num_channels();
        let num_samples = clip.num_samples();
        let mut channels: Vec<Vec<T>> = Vec::new();
        let mut c: usize = 0;
        while c < num_channels
            invariant
                clip.wf(),
                num_channels == clip.spec_num_channels(),
                num_samples == clip.spec_num_samples(),
                c <= num_channels,
                channels@.len() == c,
                forall|k: int| 0 <= k < c ==> (#[trigger] channels@[k])@ == clip.view_channels()[k],
            decreases num_channels - c,
        {
            let mut channel: Vec<T> = Vec::new();
            let mut i: usize = 0;
            proof {
                clip.lemma_channel_lengths();
            }
            while i < num_samples
                invariant
                    clip.wf(),
                    c < num_channels,
                    num_channels == clip.spec_num_channels(),
                    num_samples == clip.spec_num_samples(),
                    clip.view_channels()[c as int].len() == num_samples,
                    i <= num_samples,
                    channel@ == clip.view_channels()[c as int].take(i as int),
                decreases num_samples - i,
            {
                channel.push(clip.get(c, i));
                proof {
                    assert(clip.view_channels()[c as int].take(i + 1) =~= clip.view_channels()[c as int].take(
                        i as int,
                    ).push(clip.sample(c as int, i as int)));
                }
                i = i + 1;
            }
            proof {
                assert(clip.view_channels()[c as int].take(num_samples as int) =~= clip.view_channels()[c as int]);
            }
            channels.push(channel);
            c = c + 1;
        }
        proof {
            clip.lemma_channel_lengths();
            assert forall|k: int| 0 <= k < channels@.len() implies #[trigger] channels@[k]@.len() == num_samples by {
                assert(channels@[k]@ == clip.view_channels()[k]);
            }
        }
        let own = SampleBuffer::from_channels(channels, num_samples);
        proof {
            own.lemma_channel_lengths();
            assert forall|k: int| 0 <= k < own.view_channels().len() implies #[trigger] own.view_channels()[k]
                =~= clip.view_channels()[k] by {
                assert forall|i: int| 0 <= i < num_samples implies own.view_channels()[k][i]
                    == clip.view_channels()[k][i] by {
                    assert(own.sample(k, i) == channels@[k]@[i]);
                }
            }
            assert(own.view_channels() =~= clip.view_channels());
        }
        self.looped_clip = own;
        self.output = Some(output);
        self.params = Some(params);
    }

    /// The samples of one frame: with a sequence and a clip, the frame that
    /// the sequence plays at the cursor (see `frame_position`) and its
    /// samples, one for each channel; the playhead moves there and the
    /// cursor moves on, wrapping at the clip length. Without either, nothing
    /// changes.
    pub fn next_frame(&mut self) -> (r: Option<(SequencerFrame, Vec<T>)>)
        requires
            old(self).wf(),
            old(self).spec_clip().spec_num_samples() > 0 ==> (old(self).spec_output() matches Some(o)
                ==> is_playable(o)),
        ensures
            final(self).wf(),
            final(self).spec_params() == old(self).spec_params(),
            final(self).spec_output() == old(self).spec_output(),
            final(self).spec_clip() == old(self).spec_clip(),
            match old(self).spec_output() {
                Some(o) if old(self).spec_clip().spec_num_samples() > 0 => {
                    let n = old(self).spec_clip().spec_num_samples() as int;
                    let c = old(self).spec_cursor() as int % n;
                    let step = (c / o.sequence_step_size as int) % o.sequence@.len() as int;
                    let overflow = c % o.sequence_step_size as int;
                    let index = (o.sequence@[step].start + overflow) % n;
                    &&& r matches Some((frame, samples)) && {
                        &&& frame.index == index
                        &&& frame.overflow == overflow
                        &&& samples@.len() == old(self).spec_clip().spec_num_channels()
                        &&& forall|ch: int|
                            0 <= ch < samples@.len() ==> #[trigger] samples@[ch] == old(
                                self,
                            ).spec_clip().sample(ch, index)
                    }
                    &&& final(self).spec_playhead() == index
                    &&& final(self).spec_cursor() == (if old(self).spec_cursor() + 1 >= n {
                        0
                    } else {
                        old(self).spec_cursor() + 1
                    })
                },
                _ => {
                    &&& r is None
                    &&& final(self).spec_playhead() == old(self).spec_playhead()
                    &&& final(self).spec_cursor() == old(self).spec_cursor()
                },
            },
    {
        let num_samples = self.looped_clip.num_samples();
        if num_samples == 0 {
            return None;
        }
        let frame = match &self.output {
            Some(output) => output.frame_position(self.cursor, num_samples),
            None => {
                return None;
            },
        };
        let num_channels = self.looped_clip.num_channels();
        let mut samples: Vec<T> = Vec::new();
        let mut ch: usize = 0;
        proof {
            self.looped_clip.lemma_channel_lengths();
        }
        while ch < num_channels
            invariant
                self.looped_clip.wf(),
                num_channels == self.looped_clip.spec_num_channels(),
                num_samples == self.looped_clip.spec_num_samples(),
                frame.index < num_samples,
                ch <= num_channels,
                samples@.len() == ch,
                forall|k: int| 0 <= k < ch ==> #[trigger] samples@[k] == self.looped_clip.sample(k, frame.index as int),
            decreases num_channels - ch,
        {
            samples.push(self.looped_clip.get(ch, frame.index));
            ch = ch + 1;
        }
        self.playhead = frame.index;
        self.cursor = if self.cursor >= num_samples - 1 {
            0
        } else {
            self.cursor + 1
        };
        Some((frame, samples))
    }
}

} // verus!
