use vstd::prelude::*;

verus! {

/// The channel count the engine renders for: stereo.
pub const ASSUMED_CHANNEL_COUNT: u16 = 2;

/// Why an output stream configuration is not one the engine can drive.
#[derive(Clone, Copy, Debug, PartialEq, Eq, Structural)]
pub enum ConfigError {
    /// Not stereo: the channel count found.
    Channels(u16),
    /// Samples are not 32-bit floats.
    SampleFormat,
    /// Neither 44.1 kHz nor 48 kHz: the rate found.
    SampleRate(u32),
}

/// Checks an output configuration, in this order: two channels, 32-bit float
/// samples, a sample rate of 44 100 or 48 000 Hz. The first that fails is
/// reported.
pub fn check_stream_config(channels: u16, samples_are_f32: bool, sample_rate: u32) -> (r: Result<(), ConfigError>)
    ensures
        channels != 2 ==> r == Err::<(), ConfigError>(ConfigError::Channels(channels)),
        channels == 2 && !samples_are_f32 ==> r == Err::<(), ConfigError>(ConfigError::SampleFormat),
        channels == 2 && samples_are_f32 && sample_rate != 44_100 && sample_rate != 48_000 ==> r
            == Err::<(), ConfigError>(ConfigError::SampleRate(sample_rate)),
        r is Ok <==> channels == 2 && samples_are_f32 && (sample_rate == 44_100 || sample_rate
            == 48_000),
{
    if channels != ASSUMED_CHANNEL_COUNT {
        Err(ConfigError::Channels(channels))
    } else if !samples_are_f32 {
        Err(ConfigError::SampleFormat)
    } else if sample_rate != 44_100 && sample_rate != 48_000 {
        Err(ConfigError::SampleRate(sample_rate))
    } else {
        Ok(())
    }
}

/// Whether a channel count differs from the one the engine was tested with
/// (it then renders into the first two channels of each frame).
pub fn unusual_channel_count(channels: usize) -> (warn: bool)
    ensures
        warn == (channels != 2),
{
    channels != 2
}

} // verus!
