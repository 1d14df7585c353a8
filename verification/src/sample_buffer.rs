//! The shared sample queue.
//!
//! A FIFO of interleaved 16-bit samples, written by the jitter-buffer
//! controller and read by the playback renderer. Samples are appended at the
//! tail and drained from the head; all operations are bounded-time memory
//! moves, so a caller may hold a lock around them in a real-time path.

use vstd::prelude::*;

verus! {

/// Ordered sequence of interleaved samples with FIFO discipline.
pub struct SampleBuffer {
    samples: Vec<i16>,
}

impl View for SampleBuffer {
    type V = Seq<i16>;

    closed spec fn view(&self) -> Seq<i16> {
        self.samples@
    }
}

impl SampleBuffer {
    /// An empty buffer, as created at stream start.
    pub fn new() -> (r: SampleBuffer)
        ensures
            r@ == Seq::<i16>::empty(),
    {
        SampleBuffer { samples: Vec::new() }
    }

    /// Number of queued samples.
    pub fn len(&self) -> (r: usize)
        ensures
            r == self@.len(),
    {
        self.samples.len()
    }

    /// Number of whole frames queued, at `channels_count` samples per frame.
    pub fn frames_len(&self, channels_count: usize) -> (r: usize)
        requires
            channels_count >= 1,
        ensures
            r == self@.len() as int / channels_count as int,
    {
        self.samples.len() / channels_count
    }

    /// Drop every queued sample.
    pub fn clear(&mut self)
        ensures
            final(self)@ == Seq::<i16>::empty(),
    {
        self.samples.clear()
    }

    /// Keep only the first `n` samples; a longer `n` leaves the buffer as is.
    pub fn truncate_samples(&mut self, n: usize)
        ensures
            n <= old(self)@.len() ==> final(self)@ == old(self)@.subrange(0, n as int),
            n > old(self)@.len() ==> final(self)@ == old(self)@,
    {
        self.samples.truncate(n)
    }

    /// Remove the oldest `n` samples from the head and hand them out in
    /// arrival order.
    pub fn drain_front(&mut self, n: usize) -> (r: Vec<i16>)
        requires
            n <= old(self)@.len(),
        ensures
            r@ == old(self)@.subrange(0, n as int),
            final(self)@ == old(self)@.subrange(n as int, old(self)@.len() as int),
    {
        let mut head = self.samples.split_off(n);
        core::mem::swap(&mut self.samples, &mut head);
        head
    }

    /// Append decoded samples at the tail.
    pub fn append_samples(&mut self, new_samples: &[i16])
        ensures
            final(self)@ == old(self)@ + new_samples@,
    {
        let ghost initial = self.samples@;
        let mut i: usize = 0;
        while i < new_samples.len()
            invariant
                i <= new_samples@.len(),
                self.samples@ == initial + new_samples@.subrange(0, i as int),
            decreases new_samples@.len() - i,
        {
            self.samples.push(new_samples[i]);
            i = i + 1;
            proof {
                assert(self.samples@ =~= initial + new_samples@.subrange(0, i as int));
            }
        }
        proof {
            assert(self.samples@ =~= old(self)@ + new_samples@);
        }
    }

    /// Read the sample at `i`.
    pub fn get(&self, i: usize) -> (r: i16)
        requires
            i < self@.len(),
        ensures
            r == self@[i as int],
    {
        self.samples[i]
    }

    /// Overwrite the sample at `i`.
    pub fn set(&mut self, i: usize, v: i16)
        requires
            i < old(self)@.len(),
        ensures
            final(self)@ == old(self)@.update(i as int, v),
    {
        self.samples[i] = v;
    }
}

} // verus!
