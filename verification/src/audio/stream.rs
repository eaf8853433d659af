//! What a capture stream is opened with.

use vstd::prelude::*;

verus! {

/// Channel count of every output container: the pipeline always writes mono.
pub const OUTPUT_CHANNELS: u16 = 1;

/// Bit depth of every output container.
pub const OUTPUT_BITS_PER_SAMPLE: u16 = 16;

/// The sample format a device delivers.
#[derive(Clone, Copy, Debug, PartialEq, Eq, Structural)]
pub enum SampleFormat {
    F32,
    I16,
    U16,
    I8,
    U8,
    /// Any format the pipeline has no conversion for.
    Other,
}

impl SampleFormat {
    /// Whether the pipeline can convert this format.
    pub open spec fn supported(self) -> bool {
        !(self is Other)
    }

    /// Whether the pipeline can convert this format.
    pub fn is_supported(&self) -> (b: bool)
        ensures
            b == self.supported(),
    {
        match self {
            SampleFormat::Other => false,
            _ => true,
        }
    }
}

/// The input configuration a device reported as its own.
#[derive(Clone, Copy, Debug, PartialEq, Eq, Structural)]
pub struct NegotiatedConfig {
    pub sample_rate: u32,
    pub channels: u16,
    pub format: SampleFormat,
}

/// How the samples of a container are encoded.
#[derive(Clone, Copy, Debug, PartialEq, Eq, Structural)]
pub enum SampleEncoding {
    /// Signed integers.
    Int,
    /// IEEE-754 values.
    Float,
}

/// Header of the output container.
#[derive(Clone, Copy, Debug, PartialEq, Eq, Structural)]
pub struct ContainerSpec {
    pub channels: u16,
    pub sample_rate: u32,
    pub bits_per_sample: u16,
    pub sample_format: SampleEncoding,
}

/// Settings the input stream is built with; the buffer size is left to the
/// platform.
#[derive(Clone, Copy, Debug, PartialEq, Eq, Structural)]
pub struct StreamSettings {
    pub channels: u16,
    pub sample_rate: u32,
}

/// The container that matches what the pipeline writes for a device with
/// this configuration: mono, integers of 16 bits, at the device's own rate.
pub open spec fn container_spec(config: NegotiatedConfig) -> ContainerSpec {
    ContainerSpec {
        channels: 1,
        sample_rate: config.sample_rate,
        bits_per_sample: 16,
        sample_format: SampleEncoding::Int,
    }
}

/// The stream settings for a device with this configuration: the device's
/// own channel count and rate.
pub open spec fn stream_settings(config: NegotiatedConfig) -> StreamSettings {
    StreamSettings { channels: config.channels, sample_rate: config.sample_rate }
}

/// Header of the container for a negotiated configuration. Neither the rate
/// nor the channel count that a caller asked for plays a part.
pub fn container_for(config: &NegotiatedConfig) -> (spec: ContainerSpec)
    ensures
        spec == container_spec(*config),
{
    ContainerSpec {
        channels: OUTPUT_CHANNELS,
        sample_rate: config.sample_rate,
        bits_per_sample: OUTPUT_BITS_PER_SAMPLE,
        sample_format: SampleEncoding::Int,
    }
}

/// Settings of the input stream for a negotiated configuration.
pub fn settings_for(config: &NegotiatedConfig) -> (settings: StreamSettings)
    ensures
        settings == stream_settings(*config),
{
    StreamSettings { channels: config.channels, sample_rate: config.sample_rate }
}

} // verus!
