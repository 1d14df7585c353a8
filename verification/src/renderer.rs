//! The playback renderer.
//!
//! Pull-based consumer of the shared sample queue: once per rendering quantum
//! it extracts exactly one batch, synthesizes a fade-out when starvation is
//! imminent, and yields silence when not enough data is queued. A cursor type
//! delivers the pulled batch one sample at a time to the device callback.

use vstd::prelude::*;
use vstd::arithmetic::div_mod::lemma_div_by_multiple;
use vstd::arithmetic::div_mod::lemma_div_is_ordered;
use vstd::arithmetic::div_mod::lemma_fundamental_div_mod;
use vstd::arithmetic::div_mod::lemma_mod_division_less_than_divisor;
use vstd::arithmetic::div_mod::lemma_multiply_divide_lt;
use vstd::arithmetic::mul::lemma_mul_inequality;
use vstd::arithmetic::mul::lemma_mul_is_commutative;
use vstd::arithmetic::mul::lemma_mul_upper_bound;
use crate::fade::scale_sample;
use crate::fade::spec_scale;
use crate::sample_buffer::SampleBuffer;

verus! {

/// A queue of `len` samples holds at least `n` whole frames exactly when it
/// holds at least `n * ch` samples.
pub proof fn lemma_frames_threshold(len: int, ch: int, n: int)
    requires
        1 <= ch,
        0 <= n,
        0 <= len,
    ensures
        (len / ch >= n) <==> (len >= n * ch),
{
    if len >= n * ch {
        lemma_div_is_ordered(n * ch, len, ch);
        lemma_div_by_multiple(n, ch);
    }
    if len / ch >= n {
        lemma_fundamental_div_mod(len, ch);
        lemma_mod_division_less_than_divisor(len, ch);
        lemma_mul_inequality(n, len / ch, ch);
    }
}

/// A full batch of silent frames.
pub open spec fn spec_silence(len: nat) -> Seq<i16> {
    Seq::new(len, |i: int| 0i16)
}

/// A batch with a linear fade-out rendered over it: frame `f` of `n` is
/// attenuated by `(n - f) / n`, so volume walks from full scale down to just
/// above silence across the batch.
pub open spec fn spec_fade_out_batch(batch: Seq<i16>, ch: int, n: int) -> Seq<i16> {
    Seq::new(batch.len(), |i: int| spec_scale(batch[i] as int, n - i / ch, n) as i16)
}

/// The batch that one pull returns: the oldest `n` frames, faded out if their
/// removal leaves less than one batch behind, or silence if fewer than `n`
/// frames are queued.
pub open spec fn spec_pull_batch(buf: Seq<i16>, ch: int, n: int) -> Seq<i16> {
    if buf.len() as int / ch >= n {
        let taken = buf.subrange(0, n * ch);
        if (buf.len() as int - n * ch) / ch < n {
            spec_fade_out_batch(taken, ch, n)
        } else {
            taken
        }
    } else {
        spec_silence((n * ch) as nat)
    }
}

/// What one pull leaves in the queue: everything past the extracted batch, or
/// the untouched queue when it was too shallow to serve one.
pub open spec fn spec_pull_rest(buf: Seq<i16>, ch: int, n: int) -> Seq<i16> {
    if buf.len() as int / ch >= n {
        buf.subrange(n * ch, buf.len() as int)
    } else {
        buf
    }
}

/// Extract the next rendering batch from the shared queue.
///
/// Always returns exactly `batch_frames_count * channels_count` samples. If
/// at least one batch is queued, the oldest batch is removed — faded out when
/// its removal leaves the queue below one batch, anticipating starvation at
/// the next call. Otherwise the queue is left untouched and the batch is
/// silence.
pub fn get_next_frame_batch(
    sample_buffer: &mut SampleBuffer,
    channels_count: usize,
    batch_frames_count: usize,
) -> (batch: Vec<i16>)
    requires
        1 <= channels_count <= 2,
        1 <= batch_frames_count <= 0x0800_0000,
    ensures
        batch@ == spec_pull_batch(
            old(sample_buffer)@,
            channels_count as int,
            batch_frames_count as int,
        ),
        final(sample_buffer)@ == spec_pull_rest(
            old(sample_buffer)@,
            channels_count as int,
            batch_frames_count as int,
        ),
        batch@.len() == batch_frames_count * channels_count,
        (old(sample_buffer)@.len() as int / channels_count as int) < (batch_frames_count as int)
            ==> final(sample_buffer)@ == old(sample_buffer)@,
        old(sample_buffer)@.len() as int % (channels_count as int) == 0
            ==> final(sample_buffer)@.len() as int % (channels_count as int) == 0,
{
    let ghost ch = channels_count as int;
    let ghost n = batch_frames_count as int;
    proof {
        lemma_mul_upper_bound(n, 0x0800_0000, ch, 2);
        lemma_frames_threshold(old(sample_buffer)@.len() as int, ch, n);
        if old(sample_buffer)@.len() as int % ch == 0 {
            vstd::arithmetic::div_mod::lemma_mod_multiples_basic(n, ch);
            vstd::arithmetic::div_mod::lemma_sub_mod_noop(
                old(sample_buffer)@.len() as int,
                n * ch,
                ch,
            );
        }
    }
    let batch_samples_count: usize = batch_frames_count * channels_count;
    if sample_buffer.frames_len(channels_count) >= batch_frames_count {
        let mut batch = sample_buffer.drain_front(batch_samples_count);
        let ghost taken = batch@;
        if sample_buffer.frames_len(channels_count) < batch_frames_count {
            // Starvation is imminent: render the fade-out inside this batch.
            let mut i: usize = 0;
            while i < batch_samples_count
                invariant
                    i <= batch_samples_count,
                    batch_samples_count == n * ch,
                    ch == channels_count as int,
                    n == batch_frames_count as int,
                    1 <= ch <= 2,
                    1 <= n <= 0x0800_0000,
                    batch@.len() == batch_samples_count,
                    taken.len() == batch_samples_count,
                    forall|j: int|
                        0 <= j < i ==> batch@[j] == spec_scale(
                            taken[j] as int,
                            n - j / ch,
                            n,
                        ) as i16,
                    forall|j: int| i <= j < batch_samples_count ==> batch@[j] == taken[j],
                decreases batch_samples_count - i,
            {
                proof {
                    lemma_mul_is_commutative(n, ch);
                    lemma_multiply_divide_lt(i as int, ch, n);
                    vstd::arithmetic::div_mod::lemma_div_pos_is_pos(i as int, ch);
                }
                let weight: usize = batch_frames_count - i / channels_count;
                batch[i] = scale_sample(batch[i], weight, batch_frames_count);
                i = i + 1;
            }
            proof {
                assert(batch@ =~= spec_fade_out_batch(taken, ch, n));
            }
        }
        batch
    } else {
        let batch = vec![0i16; batch_samples_count];
        proof {
            assert(batch@ =~= spec_silence((n * ch) as nat));
        }
        batch
    }
}

/// Streams pulled batches to the playback device one sample per call,
/// decoupling the device's native callback granularity from the batch-pull
/// granularity: a new batch is pulled from the shared queue exactly when the
/// cycle position wraps to zero.
pub struct StreamingSource {
    pub current_batch: Vec<i16>,
    pub current_batch_cursor: usize,
    pub channels_count: usize,
    pub sample_rate: u32,
    pub batch_frames_count: usize,
}

impl StreamingSource {
    /// Either the cursor sits at a batch boundary (and the next call pulls),
    /// or it points inside a full batch.
    pub open spec fn wf(&self) -> bool {
        &&& 1 <= self.channels_count <= 2
        &&& 1 <= self.batch_frames_count <= 0x0800_0000
        &&& (self.current_batch_cursor == 0 || (self.current_batch@.len()
            == self.batch_frames_count * self.channels_count && self.current_batch_cursor
            < self.batch_frames_count * self.channels_count))
    }

    /// A source with no batch pulled yet; the first call to `next_sample`
    /// pulls one.
    pub fn new(channels_count: usize, sample_rate: u32, batch_frames_count: usize) -> (r:
        StreamingSource)
        requires
            1 <= channels_count <= 2,
            1 <= batch_frames_count <= 0x0800_0000,
        ensures
            r.wf(),
            r.current_batch_cursor == 0,
            r.channels_count == channels_count,
            r.sample_rate == sample_rate,
            r.batch_frames_count == batch_frames_count,
    {
        StreamingSource {
            current_batch: Vec::new(),
            current_batch_cursor: 0,
            channels_count,
            sample_rate,
            batch_frames_count,
        }
    }

    /// The next sample for the device: pulls a fresh batch from the shared
    /// queue when the cycle position is zero, otherwise replays the current
    /// batch at the cursor.
    pub fn next_sample(&mut self, sample_buffer: &mut SampleBuffer) -> (s: i16)
        requires
            old(self).wf(),
        ensures
            final(self).wf(),
            final(self).channels_count == old(self).channels_count,
            final(self).sample_rate == old(self).sample_rate,
            final(self).batch_frames_count == old(self).batch_frames_count,
            final(self).current_batch_cursor == (old(self).current_batch_cursor + 1) % (old(
                self,
            ).batch_frames_count * old(self).channels_count) as int,
            s == final(self).current_batch@[old(self).current_batch_cursor as int],
            old(self).current_batch_cursor == 0 ==> {
                &&& final(self).current_batch@ == spec_pull_batch(
                    old(sample_buffer)@,
                    old(self).channels_count as int,
                    old(self).batch_frames_count as int,
                )
                &&& final(sample_buffer)@ == spec_pull_rest(
                    old(sample_buffer)@,
                    old(self).channels_count as int,
                    old(self).batch_frames_count as int,
                )
            },
            old(self).current_batch_cursor != 0 ==> {
                &&& final(self).current_batch == old(self).current_batch
                &&& final(sample_buffer)@ == old(sample_buffer)@
            },
    {
        proof {
            lemma_mul_upper_bound(
                self.batch_frames_count as int,
                0x0800_0000,
                self.channels_count as int,
                2,
            );
            vstd::arithmetic::mul::lemma_mul_nonzero(
                self.batch_frames_count as int,
                self.channels_count as int,
            );
        }
        if self.current_batch_cursor == 0 {
            self.current_batch = get_next_frame_batch(
                sample_buffer,
                self.channels_count,
                self.batch_frames_count,
            );
        }
        let s = self.current_batch[self.current_batch_cursor];
        self.current_batch_cursor = (self.current_batch_cursor + 1) % (self.batch_frames_count
            * self.channels_count);
        s
    }
}

} // verus!
