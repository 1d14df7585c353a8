//! The capture-side sample converter and the wire codec.
//!
//! The wire format is interleaved 16-bit signed samples, little endian. The
//! converter turns a hardware-delivered chunk into a wire-format chunk of the
//! target channel count: mono input is duplicated into both stereo slots,
//! stereo input is reduced to its first channel, anything else passes
//! through. The codec turns wire bytes into numeric samples and back.

use vstd::prelude::*;
use vstd::arithmetic::div_mod::lemma_fundamental_div_mod;
use vstd::arithmetic::div_mod::lemma_fundamental_div_mod_converse;
use vstd::arithmetic::div_mod::lemma_mod_division_less_than_divisor;

verus! {

/// The numeric value of one wire sample, stored as low byte then high byte.
pub open spec fn spec_i16_le(lo: u8, hi: u8) -> i16 {
    if lo + hi * 0x100 < 0x8000 {
        (lo + hi * 0x100) as i16
    } else {
        (lo + hi * 0x100 - 0x10000) as i16
    }
}

/// The samples carried by a packet payload: one per consecutive byte pair, a
/// trailing odd byte ignored.
pub open spec fn spec_decode_packet(bytes: Seq<u8>) -> Seq<i16> {
    Seq::new((bytes.len() / 2) as nat, |k: int| spec_i16_le(bytes[2 * k], bytes[2 * k + 1]))
}

/// A sample's two's-complement value as an unsigned 16-bit number.
pub open spec fn spec_unsigned16(s: i16) -> int {
    if s < 0 {
        s + 0x10000
    } else {
        s as int
    }
}

/// The two wire bytes of one sample, low byte first.
pub open spec fn spec_le_bytes(s: i16) -> Seq<u8> {
    seq![(spec_unsigned16(s) % 0x100) as u8, (spec_unsigned16(s) / 0x100) as u8]
}

/// The wire bytes of a whole chunk of samples.
pub open spec fn spec_encode_samples(samples: Seq<i16>) -> Seq<u8> {
    Seq::new((samples.len() * 2) as nat, |i: int| spec_le_bytes(samples[i / 2])[i % 2])
}

/// Decode a packet payload into numeric samples.
pub fn decode_packet(bytes: &[u8]) -> (samples: Vec<i16>)
    ensures
        samples@ == spec_decode_packet(bytes@),
{
    let count: usize = bytes.len() / 2;
    proof {
        lemma_fundamental_div_mod(bytes@.len() as int, 2);
        lemma_mod_division_less_than_divisor(bytes@.len() as int, 2);
    }
    let mut samples: Vec<i16> = Vec::new();
    let mut k: usize = 0;
    while k < count
        invariant
            k <= count,
            count == bytes@.len() as int / 2,
            2 * count <= bytes@.len(),
            bytes@.len() <= usize::MAX,
            samples@.len() == k,
            forall|j: int|
                0 <= j < k ==> samples@[j] == spec_i16_le(bytes@[2 * j], bytes@[2 * j + 1]),
        decreases count - k,
    {
        let lo = bytes[2 * k];
        let hi = bytes[2 * k + 1];
        let v: u16 = (lo as u16) + (hi as u16) * 0x100;
        let s: i16 = if v >= 0x8000 {
            ((v as i32) - 0x10000) as i16
        } else {
            v as i16
        };
        samples.push(s);
        k = k + 1;
    }
    proof {
        assert(samples@ =~= spec_decode_packet(bytes@));
    }
    samples
}

/// Encode numeric samples into wire bytes.
pub fn encode_samples(samples: &[i16]) -> (bytes: Vec<u8>)
    requires
        samples@.len() * 2 <= usize::MAX,
    ensures
        bytes@ == spec_encode_samples(samples@),
{
    let mut bytes: Vec<u8> = Vec::new();
    let mut k: usize = 0;
    while k < samples.len()
        invariant
            k <= samples@.len(),
            samples@.len() * 2 <= usize::MAX,
            bytes@.len() == 2 * k,
            forall|j: int|
                0 <= j < k ==> {
                    &&& bytes@[2 * j] == spec_le_bytes(samples@[j])[0]
                    &&& bytes@[2 * j + 1] == spec_le_bytes(samples@[j])[1]
                },
        decreases samples@.len() - k,
    {
        let s = samples[k];
        let u: u16 = if s < 0 {
            ((s as i32) + 0x10000) as u16
        } else {
            s as u16
        };
        bytes.push((u % 0x100) as u8);
        bytes.push((u / 0x100) as u8);
        k = k + 1;
    }
    proof {
        assert forall|i: int| 0 <= i < samples@.len() * 2 implies bytes@[i] == spec_le_bytes(
            samples@[i / 2],
        )[i % 2] by {
            lemma_fundamental_div_mod(i, 2);
            lemma_mod_division_less_than_divisor(i, 2);
        }
        assert(bytes@ =~= spec_encode_samples(samples@));
    }
    bytes
}

/// Encoding then decoding a chunk of samples reproduces it exactly: the wire
/// codec loses nothing.
pub proof fn lemma_wire_round_trip(samples: Seq<i16>)
    ensures
        spec_decode_packet(spec_encode_samples(samples)) == samples,
{
    let enc = spec_encode_samples(samples);
    assert forall|k: int| 0 <= k < samples.len() implies spec_decode_packet(enc)[k]
        == samples[k] by {
        lemma_fundamental_div_mod_converse(2 * k, 2, k, 0);
        lemma_fundamental_div_mod_converse(2 * k + 1, 2, k, 1);
        let s = samples[k];
        let u = spec_unsigned16(s);
        lemma_fundamental_div_mod(u, 0x100);
        lemma_mod_division_less_than_divisor(u, 0x100);
        assert(enc[2 * k] == (u % 0x100) as u8);
        assert(enc[2 * k + 1] == (u / 0x100) as u8);
        assert(u == (u % 0x100) + (u / 0x100) * 0x100);
    }
    assert(spec_decode_packet(enc) =~= samples);
}

/// A chunk of mono frames duplicated into both channel slots of each stereo
/// output frame.
pub open spec fn spec_mono_to_stereo(b: Seq<u8>) -> Seq<u8> {
    Seq::new((b.len() / 2 * 4) as nat, |i: int| b[(i / 4) * 2 + (i % 4) % 2])
}

/// A chunk of stereo frames reduced to their first channel, the second
/// discarded.
pub open spec fn spec_stereo_to_mono(b: Seq<u8>) -> Seq<u8> {
    Seq::new((b.len() / 4 * 2) as nat, |i: int| b[(i / 2) * 4 + i % 2])
}

/// The channel conversion applied to a wire-format chunk for a given pair of
/// native and target channel counts.
pub open spec fn spec_convert_channels(b: Seq<u8>, native: int, target: int) -> Seq<u8> {
    if native == 1 && target == 2 {
        spec_mono_to_stereo(b)
    } else if native == 2 && target == 1 {
        spec_stereo_to_mono(b)
    } else {
        b
    }
}

/// Up- or down-mix a wire-format chunk from the device's native channel count
/// to the stream's target channel count.
pub fn convert_channels_count(data: Vec<u8>, channels_count_native: u16, channels_count_target: u16) -> (r: Vec<u8>)
    requires
        data@.len() * 2 <= usize::MAX,
    ensures
        r@ == spec_convert_channels(
            data@,
            channels_count_native as int,
            channels_count_target as int,
        ),
{
    if channels_count_native == 1 && channels_count_target == 2 {
        proof {
            lemma_fundamental_div_mod(data@.len() as int, 2);
            lemma_mod_division_less_than_divisor(data@.len() as int, 2);
        }
        let frames: usize = data.len() / 2;
        let mut out: Vec<u8> = Vec::new();
        let mut k: usize = 0;
        while k < frames
            invariant
                k <= frames,
                frames == data@.len() as int / 2,
                2 * frames <= data@.len(),
                data@.len() * 2 <= usize::MAX,
                out@.len() == 4 * k,
                forall|j: int| 0 <= j < 4 * k ==> out@[j] == data@[(j / 4) * 2 + (j % 4) % 2],
            decreases frames - k,
        {
            let b0 = data[2 * k];
            let b1 = data[2 * k + 1];
            out.push(b0);
            out.push(b1);
            out.push(b0);
            out.push(b1);
            proof {
                lemma_fundamental_div_mod_converse(4 * k as int, 4, k as int, 0);
                lemma_fundamental_div_mod_converse(4 * k as int + 1, 4, k as int, 1);
                lemma_fundamental_div_mod_converse(4 * k as int + 2, 4, k as int, 2);
                lemma_fundamental_div_mod_converse(4 * k as int + 3, 4, k as int, 3);
            }
            k = k + 1;
        }
        proof {
            assert(out@ =~= spec_mono_to_stereo(data@));
        }
        out
    } else if channels_count_native == 2 && channels_count_target == 1 {
        proof {
            lemma_fundamental_div_mod(data@.len() as int, 4);
            lemma_mod_division_less_than_divisor(data@.len() as int, 4);
        }
        let frames: usize = data.len() / 4;
        let mut out: Vec<u8> = Vec::new();
        let mut k: usize = 0;
        while k < frames
            invariant
                k <= frames,
                frames == data@.len() as int / 4,
                4 * frames <= data@.len(),
                data@.len() <= usize::MAX,
                out@.len() == 2 * k,
                forall|j: int| 0 <= j < 2 * k ==> out@[j] == data@[(j / 2) * 4 + j % 2],
            decreases frames - k,
        {
            let b0 = data[4 * k];
            let b1 = data[4 * k + 1];
            out.push(b0);
            out.push(b1);
            proof {
                lemma_fundamental_div_mod_converse(2 * k as int, 2, k as int, 0);
                lemma_fundamental_div_mod_converse(2 * k as int + 1, 2, k as int, 1);
            }
            k = k + 1;
        }
        proof {
            assert(out@ =~= spec_stereo_to_mono(data@));
        }
        out
    } else {
        data
    }
}

/// Fatal configuration errors surfaced to the caller at stream setup.
pub enum AudioConfigError {
    /// The device exposes more than two channels; surround capture is not
    /// supported.
    TooManyChannels,
}

impl AudioConfigError {
    /// Human-readable description of the error.
    pub fn message(&self) -> (r: String)
    {
        match self {
            AudioConfigError::TooManyChannels => String::from_str(
                "Audio devices with more than 2 channels are not supported. Please turn off surround audio.",
            ),
        }
    }
}

/// Reject device configurations the converter cannot serve: only mono and
/// stereo capture are supported.
pub fn check_channels_count(channels_count: u16) -> (r: Result<(), AudioConfigError>)
    ensures
        r is Ok <==> channels_count <= 2,
{
    if channels_count > 2 {
        Err(AudioConfigError::TooManyChannels)
    } else {
        Ok(())
    }
}

} // verus!
