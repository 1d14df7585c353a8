//! Configuration surface consumed by the audio core.

use vstd::prelude::*;

verus! {

/// Selects an audio device: the platform default, by name substring, or by
/// one-based index.
#[derive(Clone)]
pub enum AudioDeviceId {
    Default,
    Name(String),
    Index(u64),
}

/// The two durations, in milliseconds, that govern the jitter buffer:
/// `batch_ms` is the size of one rendering quantum (and the fade duration),
/// `average_buffering_ms` is the target steady-state buffer depth.
#[derive(Clone)]
pub struct AudioBufferingConfig {
    pub average_buffering_ms: u64,
    pub batch_ms: u64,
}

/// Game (output) audio stream settings.
#[derive(Clone)]
pub struct GameAudioDesc {
    pub device_id: AudioDeviceId,
    pub mute_when_streaming: bool,
    pub buffering_config: AudioBufferingConfig,
}

/// Microphone stream settings. The sample rate is a free parameter for the
/// microphone because both endpoints support resampling.
#[derive(Clone)]
pub struct MicrophoneDesc {
    pub input_device_id: AudioDeviceId,
    pub output_device_id: AudioDeviceId,
    pub buffering_config: AudioBufferingConfig,
}

/// Audio host backend on Linux.
#[derive(Clone, Copy)]
pub enum LinuxAudioBackend {
    Alsa,
    Jack,
}

/// The whole audio configuration section.
#[derive(Clone)]
pub struct AudioSection {
    pub linux_backend: LinuxAudioBackend,
    pub game_audio: GameAudioDesc,
    pub microphone: MicrophoneDesc,
}

/// The buffering configuration converted to frame counts at the negotiated
/// sample rate, fixed for a stream's lifetime.
///
/// `batch_frames_count` is the unit pulled by the renderer per rendering
/// cycle and the span of every fade; `average_buffer_frames_count` is the
/// steady-state target depth of the shared sample queue.
pub struct BufferingParams {
    pub channels_count: usize,
    pub batch_frames_count: usize,
    pub average_buffer_frames_count: usize,
}

impl BufferingParams {
    /// Bounds under which all of the pipeline's frame arithmetic stays within
    /// machine integers: one or two channels, at least one frame per batch.
    pub open spec fn valid(&self) -> bool {
        &&& 1 <= self.channels_count <= 2
        &&& 1 <= self.batch_frames_count <= 0x0800_0000
        &&& self.average_buffer_frames_count <= 0x0800_0000
    }

    /// Convert the configured durations to frame counts:
    /// `frames = sample_rate * ms / 1000`.
    pub fn new(sample_rate: u32, config: &AudioBufferingConfig, channels_count: u16) -> (r:
        BufferingParams)
        requires
            1000 <= sample_rate <= 400_000,
            1 <= config.batch_ms <= 20,
            config.average_buffering_ms <= 200,
            1 <= channels_count <= 2,
        ensures
            r.channels_count == channels_count as int,
            r.batch_frames_count as int == sample_rate as int * config.batch_ms as int / 1000,
            r.average_buffer_frames_count as int == sample_rate as int
                * config.average_buffering_ms as int / 1000,
            r.valid(),
    {
        proof {
            assert(1000 <= sample_rate as int * config.batch_ms as int <= 8_000_000)
                by (nonlinear_arith)
                requires
                    1000 <= sample_rate as int <= 400_000,
                    1 <= config.batch_ms as int <= 20,
            ;
            assert(0 <= sample_rate as int * config.average_buffering_ms as int <= 80_000_000)
                by (nonlinear_arith)
                requires
                    1000 <= sample_rate as int <= 400_000,
                    0 <= config.average_buffering_ms as int <= 200,
            ;
            vstd::arithmetic::div_mod::lemma_div_is_ordered(
                1000,
                sample_rate as int * config.batch_ms as int,
                1000,
            );
            vstd::arithmetic::div_mod::lemma_div_is_ordered(
                sample_rate as int * config.batch_ms as int,
                8_000_000,
                1000,
            );
            vstd::arithmetic::div_mod::lemma_div_is_ordered(
                sample_rate as int * config.average_buffering_ms as int,
                80_000_000,
                1000,
            );
        }
        let batch: u64 = (sample_rate as u64) * config.batch_ms / 1000;
        let average: u64 = (sample_rate as u64) * config.average_buffering_ms / 1000;
        BufferingParams {
            channels_count: channels_count as usize,
            batch_frames_count: batch as usize,
            average_buffer_frames_count: average as usize,
        }
    }
}

/// Role of an audio device in the stream. For virtual microphone devices,
/// input and output labels are swapped.
pub enum AudioDeviceType {
    Output,
    Input,
    VirtualMicrophoneInput,
    VirtualMicrophoneOutput { matching_input_device_name: String },
}

impl AudioDeviceType {
    /// Whether the device plays audio out (and so may need muting while the
    /// stream captures from it).
    pub fn is_output(&self) -> (r: bool)
        ensures
            r == (self is Output || self is VirtualMicrophoneInput),
    {
        matches!(self, Self::Output | Self::VirtualMicrophoneInput)
    }
}

} // verus!
