use vstd::prelude::*;

verus! {

/// A multi-channel buffer of samples: every channel holds the same number
/// of samples.
pub struct SampleBuffer<T> {
    num_samples: usize,
    channels: Vec<Vec<T>>,
}

/// A sequence of `n` copies of `value`.
pub open spec fn filled<T>(n: nat, value: T) -> Seq<T> {
    Seq::new(n, |_i: int| value)
}

impl<T: Copy> SampleBuffer<T> {
    /// Every channel holds `num_samples` samples.
    pub closed spec fn wf(self) -> bool {
        forall|c: int|
            0 <= c < self.channels@.len() ==> #[trigger] self.channels@[c]@.len() == self.num_samples
    }

    /// The channels of the buffer.
    pub closed spec fn view_channels(self) -> Seq<Seq<T>> {
        Seq::new(self.channels@.len(), |c: int| self.channels@[c]@)
    }

    /// The number of channels.
    pub open spec fn spec_num_channels(self) -> nat {
        self.view_channels().len()
    }

    /// The number of samples in each channel.
    pub closed spec fn spec_num_samples(self) -> nat {
        self.num_samples as nat
    }

    /// The sample at `index` in `channel`.
    pub open spec fn sample(self, channel: int, index: int) -> T {
        self.view_channels()[channel][index]
    }

    /// Every channel of a well-formed buffer holds `spec_num_samples()`
    /// samples.
    pub proof fn lemma_channel_lengths(self)
        requires
            self.wf(),
        ensures
            forall|c: int|
                0 <= c < self.spec_num_channels() ==> #[trigger] self.view_channels()[c].len()
                    == self.spec_num_samples(),
    {
    }

    /// A buffer without channels or samples.
    pub fn new() -> (r: Self)
        ensures
            r.wf(),
            r.spec_num_channels() == 0,
            r.spec_num_samples() == 0,
    {
        let r = SampleBuffer { num_samples: 0, channels: Vec::new() };
        proof {
            assert(r.view_channels().len() == 0);
        }
        r
    }

    /// A buffer of `num_channels` channels of `num_samples` copies of `fill`.
    pub fn filled_with(num_channels: usize, num_samples: usize, fill: T) -> (r: Self)
        ensures
            r.wf(),
            r.spec_num_channels() == num_channels,
            r.spec_num_samples() == num_samples,
            forall|c: int, i: int|
                0 <= c < num_channels && 0 <= i < num_samples ==> #[trigger] r.sample(c, i) == fill,
    {
        let mut channels: Vec<Vec<T>> = Vec::new();
        let mut c: usize = 0;
        while c < num_channels
            invariant
                c <= num_channels,
                channels@.len() == c,
                forall|k: int| 0 <= k < c ==> #[trigger] channels@[k]@ == filled(num_samples as nat, fill),
            decreases num_channels - c,
        {
            let mut channel: Vec<T> = Vec::new();
            let mut i: usize = 0;
            while i < num_samples
                invariant
                    i <= num_samples,
                    channel@ == filled(i as nat, fill),
                decreases num_samples - i,
            {
                channel.push(fill);
                i = i + 1;
                assert(channel@ =~= filled(i as nat, fill));
            }
            channels.push(channel);
            c = c + 1;
        }
        SampleBuffer { num_samples, channels }
    }

    /// The number of channels.
    pub fn num_channels(&self) -> (r: usize)
        ensures
            r == self.spec_num_channels(),
    {
        self.channels.len()
    }

    /// The number of samples in each channel.
    pub fn num_samples(&self) -> (r: usize)
        ensures
            r == self.spec_num_samples(),
    {
        self.num_samples
    }

    /// The sample at `index` in `channel`.
    pub fn get(&self, channel: usize, index: usize) -> (r: T)
        requires
            self.wf(),
            channel < self.spec_num_channels(),
            index < self.spec_num_samples(),
        ensures
            r == self.sample(channel as int, index as int),
    {
        self.channels[channel][index]
    }

    /// Overwrites the sample at `index` in `channel`; nothing else changes.
    pub fn set(&mut self, channel: usize, index: usize, value: T)
        requires
            old(self).wf(),
            channel < old(self).spec_num_channels(),
            index < old(self).spec_num_samples(),
        ensures
            final(self).wf(),
            final(self).spec_num_channels() == old(self).spec_num_channels(),
            final(self).spec_num_samples() == old(self).spec_num_samples(),
            final(self).view_channels() == old(self).view_channels().update(
                channel as int,
                old(self).view_channels()[channel as int].update(index as int, value),
            ),
    {
        self.channels[channel].set(index, value);
        proof {
            assert(self.view_channels() =~= old(self).view_channels().update(
                channel as int,
                old(self).view_channels()[channel as int].update(index as int, value),
            ));
        }
    }

    /// Overwrites every sample with `value`; the shape is unchanged.
    pub fn fill(&mut self, value: T)
        requires
            old(self).wf(),
        ensures
            final(self).wf(),
            final(self).spec_num_channels() == old(self).spec_num_channels(),
            final(self).spec_num_samples() == old(self).spec_num_samples(),
            forall|c: int, i: int|
                0 <= c < final(self).spec_num_channels() && 0 <= i < final(self).spec_num_samples()
                    ==> #[trigger] final(self).sample(c, i) == value,
    {
        let num_channels = self.channels.len();
        let num_samples = self.num_samples;
        let ghost old_channels = self.view_channels();
        let mut c: usize = 0;
        while c < num_channels
            invariant
                c <= num_channels,
                num_channels == self.channels@.len(),
                num_samples == self.num_samples,
                self.wf(),
                forall|k: int, i: int|
                    0 <= k < c && 0 <= i < num_samples ==> #[trigger] self.channels@[k]@[i] == value,
            decreases num_channels - c,
        {
            let mut i: usize = 0;
            while i < num_samples
                invariant
                    c < num_channels,
                    i <= num_samples,
                    num_channels == self.channels@.len(),
                    num_samples == self.num_samples,
                    self.wf(),
                    forall|k: int, j: int|
                        0 <= k < c && 0 <= j < num_samples ==> #[trigger] self.channels@[k]@[j] == value,
                    forall|j: int| 0 <= j < i ==> #[trigger] self.channels@[c as int]@[j] == value,
                decreases num_samples - i,
            {
                self.channels[c].set(i, value);
                i = i + 1;
            }
            c = c + 1;
        }
    }

    /// A buffer holding the given channels, each of `num_samples` samples.
    pub fn from_channels(channels: Vec<Vec<T>>, num_samples: usize) -> (r: Self)
        requires
            forall|c: int| 0 <= c < channels@.len() ==> #[trigger] channels@[c]@.len() == num_samples,
        ensures
            r.wf(),
            r.spec_num_channels() == channels@.len(),
            r.spec_num_samples() == num_samples,
            forall|c: int, i: int|
                0 <= c < channels@.len() && 0 <= i < num_samples ==> #[trigger] r.sample(c, i)
                    == channels@[c]@[i],
    {
        SampleBuffer { num_samples, channels }
    }
}

} // verus!
