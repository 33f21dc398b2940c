use vstd::prelude::*;

verus! {

/// The sample rate, in Hz, that the speech model expects.
pub const TARGET_SAMPLE_RATE: u32 = 16000;

/// The type of the samples an input device delivers.
#[derive(Clone, Copy, PartialEq, Eq, Structural, Debug)]
pub enum SampleKind {
    I16,
    U16,
    F32,
}

/// The buffer sizes, in frames, that a device supports.
#[derive(Clone, Copy, PartialEq, Eq, Structural, Debug)]
pub enum BufferSize {
    Range { min: u32, max: u32 },
    Unknown,
}

/// One configuration of an input stream.
#[derive(Clone, Copy, PartialEq, Eq, Structural, Debug)]
pub struct InputConfig {
    pub channels: u16,
    /// Samples per second.
    pub sample_rate: u32,
    pub buffer_size: BufferSize,
    pub sample_format: SampleKind,
}

/// A family of input configurations that differ only in their sample rate.
#[derive(Clone, Copy, PartialEq, Eq, Structural, Debug)]
pub struct InputConfigRange {
    pub channels: u16,
    pub min_sample_rate: u32,
    pub max_sample_rate: u32,
    pub buffer_size: BufferSize,
    pub sample_format: SampleKind,
}

impl InputConfigRange {
    /// The family contains a configuration at `rate`.
    pub open spec fn supports(self, rate: u32) -> bool {
        self.min_sample_rate <= rate <= self.max_sample_rate
    }

    /// The member of the family at `rate`.
    pub open spec fn at_rate(self, rate: u32) -> InputConfig {
        InputConfig {
            channels: self.channels,
            sample_rate: rate,
            buffer_size: self.buffer_size,
            sample_format: self.sample_format,
        }
    }

    /// The member of the family at `rate`, which must lie in its range.
    pub fn with_sample_rate(self, rate: u32) -> (c: InputConfig)
        requires
            self.supports(rate),
        ensures
            c == self.at_rate(rate),
    {
        InputConfig {
            channels: self.channels,
            sample_rate: rate,
            buffer_size: self.buffer_size,
            sample_format: self.sample_format,
        }
    }
}

/// The default configuration is used as it is when it has one channel; otherwise
/// the first supported family is asked for.
pub fn needs_supported_ranges(default: &InputConfig) -> (b: bool)
    ensures
        b == (default.channels != 1),
{
    default.channels != 1
}

/// The configuration that recording uses, given the device's default one and,
/// when that is not mono, the first family of configurations it supports.
pub open spec fn chosen_config(default: InputConfig, first: Option<InputConfigRange>) -> InputConfig {
    if default.channels != 1 {
        match first {
            Some(range) => range.at_rate(TARGET_SAMPLE_RATE),
            None => default,
        }
    } else {
        default
    }
}

/// Where the chosen configuration comes from.
#[derive(Clone, Copy, PartialEq, Eq, Structural, Debug)]
pub enum ConfigSource {
    /// The device's default configuration, as it is.
    Default,
    /// The first supported family, at the target sample rate.
    FirstRange,
}

/// The configuration to record with, and where it comes from.
#[derive(Clone, Copy, PartialEq, Eq, Structural, Debug)]
pub struct ConfigChoice {
    pub config: InputConfig,
    pub source: ConfigSource,
}

/// Picks the configuration to record with: the default one if it is mono, else
/// the first supported family at the target sample rate, else the default one.
pub fn choose_input_config(default: InputConfig, first: Option<InputConfigRange>) -> (c: ConfigChoice)
    requires
        default.channels != 1 ==> (first matches Some(range) ==> range.supports(TARGET_SAMPLE_RATE)),
    ensures
        c.config == chosen_config(default, first),
        (c.source == ConfigSource::FirstRange) == (default.channels != 1 && first is Some),
{
    if needs_supported_ranges(&default) {
        match first {
            Some(range) => ConfigChoice {
                config: range.with_sample_rate(TARGET_SAMPLE_RATE),
                source: ConfigSource::FirstRange,
            },
            None => ConfigChoice { config: default, source: ConfigSource::Default },
        }
    } else {
        ConfigChoice { config: default, source: ConfigSource::Default }
    }
}

/// Whether sound recorded at `rate` has to be resampled for the speech model.
pub fn needs_resampling(rate: u32) -> (b: bool)
    ensures
        b == (rate != TARGET_SAMPLE_RATE),
{
    rate != TARGET_SAMPLE_RATE
}

/// A mono default configuration is kept whatever the device supports; any other
/// default is replaced by the first supported family when there is one, and the
/// result then runs at the target rate with that family's channels and format.
pub proof fn lemma_chosen_config(default: InputConfig, first: Option<InputConfigRange>)
    ensures
        default.channels == 1 ==> chosen_config(default, first) == default,
        first is None ==> chosen_config(default, first) == default,
        (default.channels != 1 && first is Some) ==> {
            &&& chosen_config(default, first).sample_rate == TARGET_SAMPLE_RATE
            &&& chosen_config(default, first).channels == first->0.channels
            &&& chosen_config(default, first).sample_format == first->0.sample_format
            &&& chosen_config(default, first).buffer_size == first->0.buffer_size
        },
{
}

} // verus!

verus! {

/// Taking a family at a rate gives a configuration at exactly that rate, with
/// the family's channels, buffer sizes and sample format.
pub proof fn lemma_at_rate(range: InputConfigRange, rate: u32)
    ensures
        range.at_rate(rate).sample_rate == rate,
        range.at_rate(rate).channels == range.channels,
        range.at_rate(rate).buffer_size == range.buffer_size,
        range.at_rate(rate).sample_format == range.sample_format,
{
}

} // verus!
