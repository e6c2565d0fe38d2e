use android_kvm::config::Config;

#[test]
fn defaults_audio_to_always_on() {
    assert!(Config::default().audio_always_on);
}

#[test]
fn rejects_zero_activation_pixels() {
    let config = Config {
        activation_pixels: 0,
        ..Config::default()
    };

    assert!(config.validate().is_err());
}

#[test]
fn rejects_non_positive_pointer_scale() {
    let config = Config {
        pointer_scale_bits: 0.0f32.to_bits(),
        ..Config::default()
    };

    assert!(config.validate().is_err());
}

#[test]
fn rejects_release_pixels_outside_configured_device_bounds() {
    let config = Config {
        android_width: Some(100),
        android_height: Some(200),
        release_pixels: 100,
        ..Config::default()
    };

    assert!(config.validate().is_err());
}

use android_kvm::android::AndroidBounds;
use android_kvm::config::ConfigError;

#[test]
fn default_config_is_valid() {
    assert_eq!(Config::default().validate(), Ok(()));
    assert_eq!(Config::default().pointer_scale_bits, 1.0f32.to_bits());
}

#[test]
fn each_rule_has_its_error() {
    let base = Config::default();
    let cases: Vec<(Config, ConfigError)> = vec![
        (Config { release_pixels: 0, ..base.clone() }, ConfigError::ZeroReleasePixels),
        (
            Config { pointer_scale_bits: f32::NAN.to_bits(), ..base.clone() },
            ConfigError::InvalidPointerScale,
        ),
        (
            Config { pointer_scale_bits: f32::INFINITY.to_bits(), ..base.clone() },
            ConfigError::InvalidPointerScale,
        ),
        (
            Config { pointer_scale_bits: (-1.0f32).to_bits(), ..base.clone() },
            ConfigError::InvalidPointerScale,
        ),
        (Config { poll_interval_ms: 0, ..base.clone() }, ConfigError::ZeroPollInterval),
        (Config { adb_binary: String::new(), ..base.clone() }, ConfigError::EmptyAdbBinary),
        (
            Config { android_width: Some(0), android_height: Some(10), ..base.clone() },
            ConfigError::NonPositiveAndroidWidth,
        ),
        (
            Config { android_width: Some(10), android_height: Some(-1), ..base.clone() },
            ConfigError::NonPositiveAndroidHeight,
        ),
        (Config { android_width: Some(10), ..base.clone() }, ConfigError::UnpairedAndroidSize),
        (
            Config {
                android_width: Some(10),
                android_height: Some(10),
                release_pixels: u32::MAX,
                ..base.clone()
            },
            ConfigError::ReleasePixelsTooLarge,
        ),
        (
            Config { android_width: Some(300), android_height: Some(4), ..base.clone() },
            ConfigError::ReleasePixelsOutsideBounds,
        ),
    ];
    for (config, error) in cases {
        assert_eq!(config.validate(), Err(error));
    }
    let mut no_scrcpy = base.clone();
    no_scrcpy.scrcpy.binary = String::new();
    assert_eq!(no_scrcpy.validate(), Err(ConfigError::EmptyScrcpyBinary));
    let tiny = Config { pointer_scale_bits: 1, ..base.clone() };
    assert_eq!(tiny.validate(), Ok(()));
    let sized = Config { android_width: Some(5), android_height: Some(5), ..base };
    assert_eq!(sized.validate(), Ok(()));
}

#[test]
fn configured_android_bounds_need_both_sides() {
    let base = Config::default();
    assert_eq!(base.android_bounds(), None);
    assert_eq!(
        Config { android_width: Some(1080), android_height: Some(2400), ..base.clone() }.android_bounds(),
        Some(AndroidBounds { width: 1080, height: 2400 })
    );
    assert_eq!(Config { android_height: Some(2400), ..base.clone() }.android_bounds(), None);
    assert_eq!(base.poll_interval(), 16);
    assert_eq!(Config { poll_interval_ms: 0, ..base }.poll_interval(), 1);
}
