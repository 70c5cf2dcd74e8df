use vstd::prelude::*;

use crate::sample_buffer::SampleBuffer;

verus! {

/// A circular buffer that records its input all the time: each frame is
/// written at the cursor (modulo the buffer length), then the cursor moves on.
pub struct ScratchPad<T> {
    buffer: SampleBuffer<T>,
    cursor: usize,
}

impl<T: Copy> ScratchPad<T> {
    pub open spec fn wf(self) -> bool {
        self.spec_buffer().wf()
    }

    /// The recorded samples.
    pub closed spec fn spec_buffer(self) -> SampleBuffer<T> {
        self.buffer
    }

    /// The number of frames written so far (modulo the word size).
    pub closed spec fn spec_cursor(self) -> usize {
        self.cursor
    }

    /// The number of frames the buffer holds.
    pub open spec fn spec_max_len(self) -> nat {
        self.spec_buffer().spec_num_samples()
    }

    /// A scratch pad recording into `buffer`, with its cursor at `0`.
    pub fn new(buffer: SampleBuffer<T>) -> (r: Self)
        requires
            buffer.wf(),
        ensures
            r.wf(),
            r.spec_buffer() == buffer,
            r.spec_cursor() == 0,
    {
        ScratchPad { buffer, cursor: 0 }
    }

    /// Writes `sample` into `channel` at the cursor position.
    pub fn set(&mut self, channel: usize, sample: T)
        requires
            old(self).wf(),
            channel < old(self).spec_buffer().spec_num_channels(),
            old(self).spec_max_len() > 0,
        ensures
            final(self).wf(),
            final(self).spec_cursor() == old(self).spec_cursor(),
            final(self).spec_buffer().spec_num_channels() == old(self).spec_buffer().spec_num_channels(),
            final(self).spec_max_len() == old(self).spec_max_len(),
            final(self).spec_buffer().view_channels() == old(self).spec_buffer().view_channels().update(
                channel as int,
                old(self).spec_buffer().view_channels()[channel as int].update(
                    (old(self).spec_cursor() as int) % (old(self).spec_max_len() as int),
                    sample,
                ),
            ),
    {
        let num_samples = self.buffer.num_samples();
        let index = self.cursor % num_samples;
        self.buffer.set(channel, index, sample);
    }

    /// Moves the cursor one frame on (wrapping around the word size).
    pub fn after_process(&mut self)
        ensures
            final(self).wf() == old(self).wf(),
            final(self).spec_buffer() == old(self).spec_buffer(),
            final(self).spec_cursor() == (if old(self).spec_cursor() == usize::MAX {
                0
            } else {
                old(self).spec_cursor() + 1
            }),
    {
        self.cursor = self.cursor.wrapping_add(1);
    }

    /// The number of frames written so far.
    pub fn cursor(&self) -> (r: usize)
        ensures
            r == self.spec_cursor(),
    {
        self.cursor
    }

    /// The number of frames the buffer holds.
    pub fn max_len(&self) -> (r: usize)
        ensures
            r == self.spec_max_len(),
    {
        self.buffer.num_samples()
    }

    /// The recorded samples.
    pub fn buffer(&self) -> (r: &SampleBuffer<T>)
        ensures
            *r == self.spec_buffer(),
            self.wf() ==> r.wf(),
    {
        &self.buffer
    }
}

} // verus!
