use pasithea::denoise::{denoise_frames, FrameSpan};
use pasithea::input_config::{
    choose_input_config, needs_resampling, ConfigSource, needs_supported_ranges, BufferSize, InputConfig,
    InputConfigRange, SampleKind, TARGET_SAMPLE_RATE,
};

#[test]
fn frames_of_recording() {
    let f = denoise_frames(1000);
    assert_eq!(
        f,
        vec![
            FrameSpan { start: 0, end: 480, keep_output: false },
            FrameSpan { start: 480, end: 960, keep_output: true },
        ]
    );
    assert!(denoise_frames(479).is_empty());
    assert_eq!(denoise_frames(480).len(), 1);
    assert_eq!(denoise_frames(1440).len(), 3);
    assert_eq!(denoise_frames(1440)[2], FrameSpan { start: 960, end: 1440, keep_output: true });
}

fn stereo_default() -> InputConfig {
    InputConfig {
        channels: 2,
        sample_rate: 44100,
        buffer_size: BufferSize::Unknown,
        sample_format: SampleKind::F32,
    }
}

#[test]
fn mono_default_is_kept() {
    let d = InputConfig { channels: 1, ..stereo_default() };
    assert!(!needs_supported_ranges(&d));
    let c = choose_input_config(d, None);
    assert_eq!(c.config, d);
    assert_eq!(c.source, ConfigSource::Default);
}

#[test]
fn other_default_takes_first_range_at_target_rate() {
    let d = stereo_default();
    assert!(needs_supported_ranges(&d));
    let range = InputConfigRange {
        channels: 1,
        min_sample_rate: 8000,
        max_sample_rate: 48000,
        buffer_size: BufferSize::Range { min: 64, max: 4096 },
        sample_format: SampleKind::I16,
    };
    let c = choose_input_config(d, Some(range));
    assert_eq!(c.source, ConfigSource::FirstRange);
    assert_eq!(
        c.config,
        InputConfig {
            channels: 1,
            sample_rate: 16000,
            buffer_size: BufferSize::Range { min: 64, max: 4096 },
            sample_format: SampleKind::I16,
        }
    );
    let c = choose_input_config(d, None);
    assert_eq!((c.config, c.source), (d, ConfigSource::Default));
}

#[test]
fn resampling_only_off_target() {
    assert_eq!(TARGET_SAMPLE_RATE, 16000);
    assert!(!needs_resampling(16000));
    assert!(needs_resampling(44100));
}
