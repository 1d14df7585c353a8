//! The jitter-buffer controller.
//!
//! Driven once per inbound packet, it repairs discontinuities and keeps the
//! shared sample queue near its target depth. Conceptually it moves between
//! three states: Normal (at least one batch queued, no loss), Starved (less
//! than one batch queued) and LossRecovering (the incoming packet flags a
//! loss). Starved and lossy audio is parked in a recovery accumulator until
//! enough contiguous data exists to re-enter playback under a fade-in — with
//! a crossfade against the batch retained across a loss — and an overflow
//! control trims excess depth under another crossfade.

use vstd::prelude::*;
use vstd::arithmetic::div_mod::lemma_add_mod_noop;
use vstd::arithmetic::div_mod::lemma_div_by_multiple;
use vstd::arithmetic::div_mod::lemma_div_pos_is_pos;
use vstd::arithmetic::div_mod::lemma_fundamental_div_mod;
use vstd::arithmetic::div_mod::lemma_mod_division_less_than_divisor;
use vstd::arithmetic::div_mod::lemma_multiply_divide_lt;
use vstd::arithmetic::mul::lemma_mul_inequality;
use vstd::arithmetic::mul::lemma_mul_is_commutative;
use vstd::arithmetic::mul::lemma_mul_upper_bound;
use crate::convert::decode_packet;
use crate::convert::lemma_wire_round_trip;
use crate::convert::spec_decode_packet;
use crate::convert::spec_encode_samples;
use crate::fade::lemma_mix_in_range;
use crate::fade::lemma_scale_magnitude;
use crate::fade::mix_sample;
use crate::fade::scale_sample;
use crate::fade::spec_mix;
use crate::fade::spec_scale;
use crate::renderer::lemma_frames_threshold;
use crate::renderer::spec_pull_batch;
use crate::sample_buffer::SampleBuffer;
use crate::settings::BufferingParams;

verus! {

/// The smaller of two lengths; caps a fade span at the data that exists.
pub open spec fn spec_cap(a: int, b: int) -> int {
    if a <= b {
        a
    } else {
        b
    }
}

/// A sequence with a linear fade-in rendered over its first `n` frames:
/// frame `f` is attenuated by `f / n`, walking the volume up from silence.
pub open spec fn spec_fade_in(s: Seq<i16>, ch: int, n: int) -> Seq<i16> {
    Seq::new(s.len(), |i: int| if i < n * ch {
        spec_scale(s[i] as int, i / ch, n) as i16
    } else {
        s[i]
    })
}

/// A faded-in sequence with the fade-out of a retained batch added over its
/// first `n` frames, completing a crossfade.
pub open spec fn spec_add_fade_out(rec: Seq<i16>, keep: Seq<i16>, ch: int, n: int) -> Seq<i16> {
    Seq::new(rec.len(), |i: int| if i < n * ch {
        (rec[i] + spec_scale(keep[i] as int, n - i / ch, n)) as i16
    } else {
        rec[i]
    })
}

/// A queue head crossfaded against the span just removed in front of it:
/// position `i` blends the kept sample (ramping up) with the removed sample
/// that used to occupy the same position (ramping down).
pub open spec fn spec_head_crossfade(kept: Seq<i16>, removed: Seq<i16>, ch: int, n: int) -> Seq<
    i16,
> {
    Seq::new(kept.len(), |i: int| if i < spec_cap(n * ch, kept.len() as int) {
        spec_mix(kept[i] as int, removed[i] as int, i / ch, n) as i16
    } else {
        kept[i]
    })
}

/// Loss handling: with less than one batch queued the whole queue is
/// dropped; otherwise exactly the next batch is retained and everything
/// after it is discarded, so stale pre-loss audio never interleaves with new
/// data.
pub open spec fn spec_loss_trim(buf: Seq<i16>, ch: int, n: int) -> Seq<i16> {
    if buf.len() as int / ch < n {
        Seq::<i16>::empty()
    } else {
        buf.subrange(0, n * ch)
    }
}

/// Overflow control: when the queued depth exceeds `2 * avg + n` frames, the
/// oldest frames beyond a depth of `avg` are removed and the new queue head
/// is crossfaded against the removed span, masking the forced skip. The
/// crossfade span is capped at the retained depth, which matters only when
/// the target depth is shorter than one batch.
pub open spec fn spec_overflow_trim(buf: Seq<i16>, ch: int, n: int, avg: int) -> Seq<i16> {
    let depth = buf.len() as int / ch;
    if depth > 2 * avg + n {
        let cut = (depth - avg) * ch;
        spec_head_crossfade(
            buf.subrange(cut, buf.len() as int),
            buf.subrange(0, cut),
            ch,
            n,
        )
    } else {
        buf
    }
}

/// The queue and the recovery accumulator after one packet, before overflow
/// control.
pub open spec fn spec_absorb_packet(
    buf0: Seq<i16>,
    rec0: Seq<i16>,
    samples: Seq<i16>,
    had_loss: bool,
    ch: int,
    n: int,
    avg: int,
) -> (Seq<i16>, Seq<i16>) {
    // Loss: trim the queue, abandon any in-progress recovery.
    let buf1 = if had_loss {
        spec_loss_trim(buf0, ch, n)
    } else {
        buf0
    };
    let rec1 = if had_loss {
        Seq::<i16>::empty()
    } else {
        rec0
    };
    // Starvation: defer what is queued until enough data accumulates.
    let starved = buf1.len() as int / ch < n;
    let buf2 = if starved {
        Seq::<i16>::empty()
    } else {
        buf1
    };
    let rec2 = if starved {
        rec1 + buf1
    } else {
        rec1
    };
    if buf2.len() == 0 || had_loss {
        // Recovery: accumulate, and re-enter playback once the accumulator
        // exceeds the average depth plus one batch.
        let rec3 = rec2 + samples;
        if rec3.len() as int / ch > avg + n {
            let rec4 = spec_fade_in(rec3, ch, n);
            if had_loss && buf2.len() as int / ch == n {
                (spec_add_fade_out(rec4, buf2, ch, n), Seq::<i16>::empty())
            } else {
                (buf2 + rec4, Seq::<i16>::empty())
            }
        } else {
            (buf2, rec3)
        }
    } else {
        // Normal: append directly to the queue tail.
        (buf2 + samples, rec2)
    }
}

/// The queue and the recovery accumulator after one packet has been fully
/// processed, overflow control included.
pub open spec fn spec_process_packet(
    buf0: Seq<i16>,
    rec0: Seq<i16>,
    samples: Seq<i16>,
    had_loss: bool,
    ch: int,
    n: int,
    avg: int,
) -> (Seq<i16>, Seq<i16>) {
    let (buf, rec) = spec_absorb_packet(buf0, rec0, samples, had_loss, ch, n, avg);
    (spec_overflow_trim(buf, ch, n, avg), rec)
}

/// The fade-in rendered over a recovery head behaves as a ramp: it is
/// silent across the whole first frame, monotonic across its span wherever
/// the source repeats a value, and leaves everything past the span
/// untouched at full volume.
pub proof fn lemma_fade_in_ramp(s: Seq<i16>, ch: int, n: int, i: int, j: int)
    requires
        1 <= ch <= 2,
        1 <= n <= 0x0800_0000,
        0 <= i <= j,
        j < s.len(),
    ensures
        i < ch && i < n * ch ==> spec_fade_in(s, ch, n)[i] == 0,
        j >= n * ch ==> spec_fade_in(s, ch, n)[j] == s[j],
        (j < n * ch && s[i] == s[j] && s[i] >= 0) ==> spec_fade_in(s, ch, n)[i] as int
            <= spec_fade_in(s, ch, n)[j] as int,
{
    if i < ch && i < n * ch {
        lemma_div_pos_is_pos(i, ch);
        lemma_multiply_divide_lt(i, ch, 1);
        assert(i / ch == 0);
        crate::fade::lemma_fade_endpoints(s[i] as int, n);
    }
    if j < n * ch && s[i] == s[j] && s[i] >= 0 {
        lemma_div_pos_is_pos(i, ch);
        vstd::arithmetic::div_mod::lemma_div_is_ordered(i, j, ch);
        lemma_mul_is_commutative(n, ch);
        lemma_multiply_divide_lt(j, ch, n);
        crate::fade::lemma_fade_monotonic(s[i] as int, i / ch, j / ch, n);
        crate::fade::lemma_scale_magnitude(s[i] as int, i / ch, n);
        crate::fade::lemma_scale_magnitude(s[j] as int, j / ch, n);
    }
}

/// Append samples to the recovery accumulator.
fn extend_samples(dst: &mut Vec<i16>, src: &[i16])
    ensures
        final(dst)@ == old(dst)@ + src@,
{
    let ghost initial = dst@;
    let mut i: usize = 0;
    while i < src.len()
        invariant
            i <= src@.len(),
            dst@ == initial + src@.subrange(0, i as int),
        decreases src@.len() - i,
    {
        dst.push(src[i]);
        i = i + 1;
        proof {
            assert(dst@ =~= initial + src@.subrange(0, i as int));
        }
    }
    proof {
        assert(dst@ =~= initial + src@);
    }
}

/// Render the recovery fade-in: volume 0 up to 1 across the first `n` frames.
fn fade_in_prefix(rec: &mut Vec<i16>, channels_count: usize, batch_frames_count: usize)
    requires
        1 <= channels_count <= 2,
        1 <= batch_frames_count <= 0x0800_0000,
        batch_frames_count * channels_count <= old(rec)@.len(),
    ensures
        final(rec)@ == spec_fade_in(old(rec)@, channels_count as int, batch_frames_count as int),
{
    let ghost ch = channels_count as int;
    let ghost n = batch_frames_count as int;
    let ghost orig = rec@;
    proof {
        lemma_mul_upper_bound(n, 0x0800_0000, ch, 2);
    }
    let span: usize = batch_frames_count * channels_count;
    let mut i: usize = 0;
    while i < span
        invariant
            i <= span,
            span == n * ch,
            ch == channels_count as int,
            n == batch_frames_count as int,
            1 <= ch <= 2,
            1 <= n <= 0x0800_0000,
            rec@.len() == orig.len(),
            span <= orig.len(),
            forall|j: int| 0 <= j < i ==> rec@[j] == spec_scale(orig[j] as int, j / ch, n) as i16,
            forall|j: int| i <= j < orig.len() ==> rec@[j] == orig[j],
        decreases span - i,
    {
        proof {
            lemma_mul_is_commutative(n, ch);
            lemma_multiply_divide_lt(i as int, ch, n);
            lemma_div_pos_is_pos(i as int, ch);
        }
        let weight: usize = i / channels_count;
        rec[i] = scale_sample(rec[i], weight, batch_frames_count);
        i = i + 1;
    }
    proof {
        assert(rec@ =~= spec_fade_in(orig, ch, n));
    }
}

/// Add the fade-out of the retained batch onto an already faded-in recovery
/// head, completing the loss crossfade.
fn add_fade_out_prefix(
    rec: &mut Vec<i16>,
    keep: &SampleBuffer,
    channels_count: usize,
    batch_frames_count: usize,
    Ghost(orig): Ghost<Seq<i16>>,
)
    requires
        1 <= channels_count <= 2,
        1 <= batch_frames_count <= 0x0800_0000,
        batch_frames_count * channels_count <= old(rec)@.len(),
        batch_frames_count * channels_count <= keep@.len(),
        orig.len() == old(rec)@.len(),
        forall|j: int|
            0 <= j < batch_frames_count * channels_count ==> old(rec)@[j] == spec_scale(
                orig[j] as int,
                j / (channels_count as int),
                batch_frames_count as int,
            ) as i16,
    ensures
        final(rec)@ == spec_add_fade_out(
            old(rec)@,
            keep@,
            channels_count as int,
            batch_frames_count as int,
        ),
{
    let ghost ch = channels_count as int;
    let ghost n = batch_frames_count as int;
    let ghost faded = rec@;
    proof {
        lemma_mul_upper_bound(n, 0x0800_0000, ch, 2);
    }
    let span: usize = batch_frames_count * channels_count;
    let mut i: usize = 0;
    while i < span
        invariant
            i <= span,
            span == n * ch,
            ch == channels_count as int,
            n == batch_frames_count as int,
            1 <= ch <= 2,
            1 <= n <= 0x0800_0000,
            rec@.len() == faded.len(),
            orig.len() == faded.len(),
            span <= faded.len(),
            span <= keep@.len(),
            forall|j: int|
                0 <= j < span ==> faded[j] == spec_scale(orig[j] as int, j / ch, n) as i16,
            forall|j: int|
                0 <= j < i ==> rec@[j] == (faded[j] + spec_scale(
                    keep@[j] as int,
                    n - j / ch,
                    n,
                )) as i16,
            forall|j: int| i <= j < faded.len() ==> rec@[j] == faded[j],
        decreases span - i,
    {
        proof {
            lemma_mul_is_commutative(n, ch);
            lemma_multiply_divide_lt(i as int, ch, n);
            lemma_div_pos_is_pos(i as int, ch);
            lemma_scale_magnitude(orig[i as int] as int, i as int / ch, n);
            lemma_mix_in_range(orig[i as int] as int, keep@[i as int] as int, i as int / ch, n);
        }
        let weight: usize = i / channels_count;
        let fading_out = scale_sample(keep.get(i), batch_frames_count - weight, batch_frames_count);
        rec[i] = ((rec[i] as i32) + (fading_out as i32)) as i16;
        i = i + 1;
    }
    proof {
        assert(rec@ =~= spec_add_fade_out(faded, keep@, ch, n));
    }
}

/// Crossfade the queue head against the span just removed in front of it.
fn crossfade_head(
    sample_buffer: &mut SampleBuffer,
    removed: &Vec<i16>,
    channels_count: usize,
    batch_frames_count: usize,
)
    requires
        1 <= channels_count <= 2,
        1 <= batch_frames_count <= 0x0800_0000,
        old(sample_buffer)@.len() <= removed@.len() || batch_frames_count * channels_count
            <= removed@.len(),
    ensures
        final(sample_buffer)@ == spec_head_crossfade(
            old(sample_buffer)@,
            removed@,
            channels_count as int,
            batch_frames_count as int,
        ),
{
    let ghost ch = channels_count as int;
    let ghost n = batch_frames_count as int;
    let ghost kept = sample_buffer@;
    proof {
        lemma_mul_upper_bound(n, 0x0800_0000, ch, 2);
    }
    let full_span: usize = batch_frames_count * channels_count;
    let buffer_len: usize = sample_buffer.len();
    let span: usize = if full_span <= buffer_len {
        full_span
    } else {
        buffer_len
    };
    let mut i: usize = 0;
    while i < span
        invariant
            i <= span,
            span == spec_cap(n * ch, kept.len() as int),
            ch == channels_count as int,
            n == batch_frames_count as int,
            1 <= ch <= 2,
            1 <= n <= 0x0800_0000,
            sample_buffer@.len() == kept.len(),
            span <= kept.len(),
            span <= removed@.len(),
            forall|j: int|
                0 <= j < i ==> sample_buffer@[j] == spec_mix(
                    kept[j] as int,
                    removed@[j] as int,
                    j / ch,
                    n,
                ) as i16,
            forall|j: int| i <= j < kept.len() ==> sample_buffer@[j] == kept[j],
        decreases span - i,
    {
        proof {
            lemma_mul_is_commutative(n, ch);
            lemma_multiply_divide_lt(i as int, ch, n);
            lemma_div_pos_is_pos(i as int, ch);
        }
        let weight: usize = i / channels_count;
        let blended = mix_sample(sample_buffer.get(i), removed[i], weight, batch_frames_count);
        sample_buffer.set(i, blended);
        i = i + 1;
    }
    proof {
        assert(sample_buffer@ =~= spec_head_crossfade(kept, removed@, ch, n));
    }
}

/// Structural facts about one processing step: the queue and the recovery
/// accumulator keep holding whole frames; a completed call never leaves more
/// than `2 * avg + n` frames queued (overflow containment); and a packet
/// without loss that finds at least one batch queued leaves the recovery
/// accumulator untouched, so only the overflow control may engage (loss
/// idempotence).
pub proof fn lemma_process_packet_props(
    buf0: Seq<i16>,
    rec0: Seq<i16>,
    samples: Seq<i16>,
    had_loss: bool,
    ch: int,
    n: int,
    avg: int,
)
    requires
        1 <= ch <= 2,
        1 <= n <= 0x0800_0000,
        0 <= avg <= 0x0800_0000,
        buf0.len() as int % ch == 0,
        rec0.len() as int % ch == 0,
        samples.len() as int % ch == 0,
    ensures
        ({
            let (b, r) = spec_process_packet(buf0, rec0, samples, had_loss, ch, n, avg);
            &&& b.len() as int % ch == 0
            &&& r.len() as int % ch == 0
            &&& b.len() as int / ch <= 2 * avg + n
            &&& (!had_loss && buf0.len() as int / ch >= n ==> r == rec0)
        }),
{
    vstd::arithmetic::div_mod::lemma_small_mod(0, ch as nat);
    vstd::arithmetic::div_mod::lemma_mod_multiples_basic(n, ch);
    vstd::arithmetic::mul::lemma_mul_strictly_positive(n, ch);
    let buf1 = if had_loss {
        spec_loss_trim(buf0, ch, n)
    } else {
        buf0
    };
    let rec1 = if had_loss {
        Seq::<i16>::empty()
    } else {
        rec0
    };
    if had_loss && buf0.len() as int / ch >= n {
        lemma_frames_threshold(buf0.len() as int, ch, n);
    }
    assert(buf1.len() as int % ch == 0) by {
        lemma_add_mod_noop(0, 0, ch);
    }
    let starved = buf1.len() as int / ch < n;
    let buf2 = if starved {
        Seq::<i16>::empty()
    } else {
        buf1
    };
    let rec2 = if starved {
        rec1 + buf1
    } else {
        rec1
    };
    lemma_add_mod_noop(rec1.len() as int, buf1.len() as int, ch);
    assert(rec2.len() as int % ch == 0);
    let (abuf, arec) = spec_absorb_packet(buf0, rec0, samples, had_loss, ch, n, avg);
    if buf2.len() == 0 || had_loss {
        let rec3 = rec2 + samples;
        lemma_add_mod_noop(rec2.len() as int, samples.len() as int, ch);
        assert(rec3.len() as int % ch == 0);
        if rec3.len() as int / ch > avg + n {
            let rec4 = spec_fade_in(rec3, ch, n);
            assert(rec4.len() == rec3.len());
            lemma_add_mod_noop(buf2.len() as int, rec4.len() as int, ch);
            assert(abuf.len() as int % ch == 0);
            assert(arec.len() as int % ch == 0);
        } else {
            assert(abuf == buf2);
            assert(arec == rec3);
        }
    } else {
        lemma_add_mod_noop(buf2.len() as int, samples.len() as int, ch);
        assert(abuf == buf2 + samples);
        assert(abuf.len() as int % ch == 0);
        assert(arec == rec2);
    }
    // Loss idempotence: with no loss and one batch queued the recovery path
    // is never entered.
    if !had_loss && buf0.len() as int / ch >= n {
        lemma_frames_threshold(buf0.len() as int, ch, n);
        assert(buf2 == buf0);
        assert(buf2.len() > 0);
        assert(arec == rec0);
    }
    // Overflow containment.
    let depth = abuf.len() as int / ch;
    let (b, r) = spec_process_packet(buf0, rec0, samples, had_loss, ch, n, avg);
    if depth > 2 * avg + n {
        let cut = (depth - avg) * ch;
        lemma_fundamental_div_mod(abuf.len() as int, ch);
        lemma_mod_division_less_than_divisor(abuf.len() as int, ch);
        assert(abuf.len() as int == depth * ch) by {
            lemma_mul_is_commutative(ch, depth);
        }
        assert(0 <= cut <= abuf.len() as int) by {
            vstd::arithmetic::mul::lemma_mul_nonnegative(depth - avg, ch);
            lemma_mul_inequality(depth - avg, depth, ch);
        }
        assert(b.len() as int == abuf.len() as int - cut);
        assert(abuf.len() as int - cut == avg * ch) by {
            vstd::arithmetic::mul::lemma_mul_is_distributive_sub_other_way(ch, depth, depth - avg);
        }
        assert(b.len() as int / ch == avg) by {
            lemma_div_by_multiple(avg, ch);
        }
        vstd::arithmetic::div_mod::lemma_mod_multiples_basic(avg, ch);
        assert(b.len() as int % ch == 0);
    } else {
        assert(b == abuf);
    }
}

/// Consume one decoded network packet: repair loss and starvation under
/// fades, feed the shared sample queue, and keep its depth bounded.
///
/// The queue and the recovery accumulator always hold whole frames; the
/// queued depth never exceeds `2 * average + batch` frames once the call
/// returns; and a packet without loss that finds at least one batch queued
/// leaves the recovery accumulator untouched.
#[verifier::rlimit(100)]
pub fn process_packet(
    sample_buffer: &mut SampleBuffer,
    recovery_buffer: &mut Vec<i16>,
    packet: &[u8],
    had_loss: bool,
    params: &BufferingParams,
)
    requires
        params.valid(),
        old(sample_buffer)@.len() as int % (params.channels_count as int) == 0,
        old(recovery_buffer)@.len() as int % (params.channels_count as int) == 0,
        (packet@.len() as int / 2) % (params.channels_count as int) == 0,
    ensures
        ({
            let (buf, rec) = spec_process_packet(
                old(sample_buffer)@,
                old(recovery_buffer)@,
                spec_decode_packet(packet@),
                had_loss,
                params.channels_count as int,
                params.batch_frames_count as int,
                params.average_buffer_frames_count as int,
            );
            final(sample_buffer)@ == buf && final(recovery_buffer)@ == rec
        }),
        final(sample_buffer)@.len() as int % (params.channels_count as int) == 0,
        final(recovery_buffer)@.len() as int % (params.channels_count as int) == 0,
        final(sample_buffer)@.len() as int / (params.channels_count as int) <= 2 * (
        params.average_buffer_frames_count as int) + params.batch_frames_count as int,
        !had_loss && old(sample_buffer)@.len() as int / (params.channels_count as int)
            >= params.batch_frames_count as int ==> final(recovery_buffer)@ == old(
            recovery_buffer,
        )@,
{
    let ch: usize = params.channels_count;
    let n: usize = params.batch_frames_count;
    let avg: usize = params.average_buffer_frames_count;
    let ghost gch = ch as int;
    let ghost gn = n as int;
    let ghost gavg = avg as int;
    let ghost buf0 = sample_buffer@;
    let ghost rec0 = recovery_buffer@;

    let new_samples = decode_packet(packet);

    proof {
        lemma_mul_upper_bound(gn, 0x0800_0000, gch, 2);
    }

    // Loss: trim the queue to at most the next batch, abandon any recovery.
    if had_loss {
        if sample_buffer.frames_len(ch) < n {
            sample_buffer.clear();
        } else {
            proof {
                lemma_frames_threshold(sample_buffer@.len() as int, gch, gn);
            }
            sample_buffer.truncate_samples(n * ch);
        }
        recovery_buffer.clear();
    }
    let ghost buf1 = sample_buffer@;
    let ghost rec1 = recovery_buffer@;
    proof {
        assert(buf1 == (if had_loss {
            spec_loss_trim(buf0, gch, gn)
        } else {
            buf0
        }));
        assert(rec1 == (if had_loss {
            Seq::<i16>::empty()
        } else {
            rec0
        }));
    }

    // Starvation: park everything queued in the recovery accumulator.
    if sample_buffer.frames_len(ch) < n {
        let total = sample_buffer.len();
        let drained = sample_buffer.drain_front(total);
        extend_samples(recovery_buffer, drained.as_slice());
        proof {
            assert(drained@ =~= buf1);
        }
    }
    let ghost buf2 = sample_buffer@;
    let ghost rec2 = recovery_buffer@;
    proof {
        if buf1.len() as int / gch < gn {
            assert(buf2 =~= Seq::<i16>::empty());
            assert(rec2 == rec1 + buf1);
        } else {
            assert(buf2 == buf1);
            assert(rec2 == rec1);
        }
    }

    if sample_buffer.len() == 0 || had_loss {
        // Recovery: accumulate until re-entry is smooth.
        extend_samples(recovery_buffer, new_samples.as_slice());
        let ghost rec3 = recovery_buffer@;
        proof {
            assert(rec3 == rec2 + new_samples@);
        }
        if recovery_buffer.len() / ch > avg + n {
            proof {
                lemma_frames_threshold(recovery_buffer@.len() as int, gch, gn);
            }
            fade_in_prefix(recovery_buffer, ch, n);
            let ghost rec4 = recovery_buffer@;
            proof {
                assert(rec4 == spec_fade_in(rec3, gch, gn));
            }
            if had_loss && sample_buffer.frames_len(ch) == n {
                proof {
                    lemma_frames_threshold(sample_buffer@.len() as int, gch, gn);
                }
                add_fade_out_prefix(recovery_buffer, sample_buffer, ch, n, Ghost(rec3));
                sample_buffer.clear();
            }
            let mut moved: Vec<i16> = Vec::new();
            core::mem::swap(recovery_buffer, &mut moved);
            sample_buffer.append_samples(moved.as_slice());
        }
    } else {
        // Normal: append directly at the tail.
        sample_buffer.append_samples(new_samples.as_slice());
    }
    let ghost absorbed = spec_absorb_packet(buf0, rec0, new_samples@, had_loss, gch, gn, gavg);
    proof {
        assert(sample_buffer@ =~= absorbed.0);
        assert(recovery_buffer@ =~= absorbed.1);
    }

    // Overflow control: drop down to the average depth under a crossfade.
    let depth = sample_buffer.frames_len(ch);
    let current_len = sample_buffer.len();
    if depth > 2 * avg + n {
        let excess = depth - avg;
        proof {
            assert(sample_buffer@.len() == current_len);
            lemma_fundamental_div_mod(sample_buffer@.len() as int, gch);
            lemma_mod_division_less_than_divisor(sample_buffer@.len() as int, gch);
            assert(gch * (sample_buffer@.len() as int / gch) <= sample_buffer@.len() as int);
            lemma_mul_is_commutative(gch, depth as int);
            lemma_mul_inequality(excess as int, depth as int, gch);
            assert(excess as int * gch <= sample_buffer@.len() as int);
            lemma_mul_inequality(gn, excess as int, gch);
        }
        let removed = sample_buffer.drain_front(excess * ch);
        crossfade_head(sample_buffer, &removed, ch, n);
    }
    proof {
        assert(sample_buffer@ =~= spec_overflow_trim(absorbed.0, gch, gn, gavg));
        lemma_process_packet_props(buf0, rec0, new_samples@, had_loss, gch, gn, gavg);
    }
}

/// Round trip: a capture chunk that reaches the controller on the normal
/// path — at least one batch already queued, no loss flagged, and the
/// resulting depth at or below the overflow bound — is appended to the
/// queue sample-exactly: the wire codec and the controller change nothing
/// in the fade-free steady region. With at least two batches of lead the
/// next pull then returns untouched audio.
pub proof fn lemma_stream_round_trip(
    buf: Seq<i16>,
    rec: Seq<i16>,
    chunk: Seq<i16>,
    ch: int,
    n: int,
    avg: int,
)
    requires
        1 <= ch <= 2,
        1 <= n <= 0x0800_0000,
        0 <= avg <= 0x0800_0000,
        buf.len() as int % ch == 0,
        chunk.len() as int % ch == 0,
        buf.len() as int / ch >= n,
        (buf.len() + chunk.len()) as int / ch <= 2 * avg + n,
    ensures
        ({
            let wire = spec_encode_samples(chunk);
            let (b, r) = spec_process_packet(buf, rec, spec_decode_packet(wire), false, ch, n, avg);
            &&& b == buf + chunk
            &&& r == rec
            &&& (forall|i: int| 0 <= i < chunk.len() ==> b[buf.len() + i] == chunk[i])
            &&& ((buf.len() + chunk.len()) as int / ch >= 2 * n ==> spec_pull_batch(b, ch, n)
                == (buf + chunk).subrange(0, n * ch))
        }),
{
    lemma_wire_round_trip(chunk);
    lemma_frames_threshold(buf.len() as int, ch, n);
    vstd::arithmetic::mul::lemma_mul_strictly_positive(n, ch);
    let samples = spec_decode_packet(spec_encode_samples(chunk));
    let (abuf, arec) = spec_absorb_packet(buf, rec, samples, false, ch, n, avg);
    assert(abuf == buf + chunk);
    assert(arec == rec);
    let len = (buf + chunk).len() as int;
    let depth = len / ch;
    assert(depth <= 2 * avg + n);
    let (b, r) = spec_process_packet(buf, rec, samples, false, ch, n, avg);
    assert(b == buf + chunk);
    if len / ch >= 2 * n {
        // Two batches of lead: the pull takes the head and, because at
        // least one batch remains behind it, renders no fade.
        lemma_frames_threshold(len, ch, n);
        lemma_fundamental_div_mod(len, ch);
        lemma_mod_division_less_than_divisor(len, ch);
        assert(len == depth * ch) by {
            lemma_mul_is_commutative(ch, depth);
        }
        assert(len - n * ch == (depth - n) * ch) by {
            vstd::arithmetic::mul::lemma_mul_is_distributive_sub_other_way(ch, depth, n);
        }
        assert((len - n * ch) / ch == depth - n) by {
            lemma_div_by_multiple(depth - n, ch);
        }
        assert(spec_pull_batch(b, ch, n) == (buf + chunk).subrange(0, n * ch));
    }
}

} // verus!
