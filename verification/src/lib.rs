//! Core of a live audio streaming stack: the capture-side sample converter,
//! the receive-side jitter-buffer controller, the pull-based playback
//! renderer, and the configuration and filesystem-layout helpers around them.
//!
//! Samples travel on the wire as interleaved 16-bit signed integers, and that
//! is also the representation the buffers here hold; fades and crossfades are
//! rendered with integer ramps over the same values.

pub mod controller;
pub mod convert;
pub mod fade;
pub mod filesystem;
pub mod renderer;
pub mod sample_buffer;
pub mod settings;
pub mod text;
pub mod version;

pub use settings::AudioBufferingConfig;
pub use settings::AudioDeviceId;
pub use settings::AudioDeviceType;
pub use settings::AudioSection;
pub use settings::GameAudioDesc;
pub use settings::LinuxAudioBackend;
pub use settings::MicrophoneDesc;
