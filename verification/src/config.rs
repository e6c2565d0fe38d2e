//! The settings of the KVM and the checks they must pass.
use vstd::prelude::*;
use vstd::string::*;

use crate::android::AndroidBounds;
use crate::edge::Edge;
use crate::scrcpy::ScrcpyConfig;

verus! {

/// The bit pattern of the `f32` value `1.0`.
pub const ONE_F32_BITS: u32 = 0x3f80_0000;

/// The bit pattern of the `f32` value positive infinity; every bit pattern
/// below it and above zero is a finite positive `f32`.
pub const INFINITY_F32_BITS: u32 = 0x7f80_0000;

/// Settings of the KVM. The pointer scale factor is an `f32`, held here as
/// its IEEE-754 bit pattern (`f32::to_bits`).
#[derive(Clone, Debug)]
pub struct Config {
    pub android_edge: Edge,
    pub activation_pixels: u32,
    pub release_pixels: u32,
    pub poll_interval_ms: u64,
    pub pointer_scale_bits: u32,
    pub audio_always_on: bool,
    pub adb_binary: String,
    pub android_width: Option<i32>,
    pub android_height: Option<i32>,
    pub scrcpy_server_path: Option<String>,
    pub control_port: u16,
    pub scrcpy: ScrcpyConfig,
}

/// Why a configuration is rejected.
#[derive(Clone, Copy, Debug, PartialEq, Eq, Structural)]
pub enum ConfigError {
    /// `activation-pixels` is zero.
    ZeroActivationPixels,
    /// `release-pixels` is zero.
    ZeroReleasePixels,
    /// `pointer-scale` is not a finite number above zero.
    InvalidPointerScale,
    /// `poll-interval-ms` is zero.
    ZeroPollInterval,
    /// `adb-binary` is empty.
    EmptyAdbBinary,
    /// `scrcpy.binary` is empty.
    EmptyScrcpyBinary,
    /// `android-width` is set and not above zero.
    NonPositiveAndroidWidth,
    /// `android-height` is set and not above zero.
    NonPositiveAndroidHeight,
    /// Only one of `android-width` and `android-height` is set.
    UnpairedAndroidSize,
    /// `release-pixels` does not fit in an `i32`.
    ReleasePixelsTooLarge,
    /// `release-pixels` is not below both configured Android dimensions.
    ReleasePixelsOutsideBounds,
}

/// The `f32` with bit pattern `bits` is finite and above zero.
pub open spec fn positive_finite_f32(bits: u32) -> bool {
    0 < bits < INFINITY_F32_BITS
}

/// The first rule that `c` breaks, in the order the checks run, or `None`.
pub open spec fn config_error(c: Config) -> Option<ConfigError> {
    if c.activation_pixels == 0 {
        Some(ConfigError::ZeroActivationPixels)
    } else if c.release_pixels == 0 {
        Some(ConfigError::ZeroReleasePixels)
    } else if !positive_finite_f32(c.pointer_scale_bits) {
        Some(ConfigError::InvalidPointerScale)
    } else if c.poll_interval_ms == 0 {
        Some(ConfigError::ZeroPollInterval)
    } else if c.adb_binary@.len() == 0 {
        Some(ConfigError::EmptyAdbBinary)
    } else if c.scrcpy.binary@.len() == 0 {
        Some(ConfigError::EmptyScrcpyBinary)
    } else if c.android_width matches Some(w) && w <= 0 {
        Some(ConfigError::NonPositiveAndroidWidth)
    } else if c.android_height matches Some(h) && h <= 0 {
        Some(ConfigError::NonPositiveAndroidHeight)
    } else if (c.android_width is Some) != (c.android_height is Some) {
        Some(ConfigError::UnpairedAndroidSize)
    } else if c.android_width is Some && c.release_pixels > i32::MAX {
        Some(ConfigError::ReleasePixelsTooLarge)
    } else if c.android_width is Some && (c.release_pixels >= c.android_width->0
        || c.release_pixels >= c.android_height->0) {
        Some(ConfigError::ReleasePixelsOutsideBounds)
    } else {
        None
    }
}

/// `c` holds the default settings.
pub open spec fn is_default_config(c: Config) -> bool {
    &&& c.android_edge == Edge::Right
    &&& c.activation_pixels == 24
    &&& c.release_pixels == 4
    &&& c.poll_interval_ms == 16
    &&& c.pointer_scale_bits == ONE_F32_BITS
    &&& c.audio_always_on
    &&& c.adb_binary@ == "adb"@
    &&& c.android_width is None
    &&& c.android_height is None
    &&& c.scrcpy_server_path is None
    &&& c.control_port == 0
    &&& c.scrcpy.binary@ == "scrcpy"@
    &&& c.scrcpy.serial is None
    &&& c.scrcpy.audio_enabled
    &&& c.scrcpy.audio_buffer_ms == 200
    &&& c.scrcpy.extra_args@.len() == 0
}

impl Default for Config {
    fn default() -> (c: Self)
        ensures
            is_default_config(c),
    {
        Config {
            android_edge: Edge::Right,
            activation_pixels: 24,
            release_pixels: 4,
            poll_interval_ms: 16,
            pointer_scale_bits: ONE_F32_BITS,
            audio_always_on: true,
            adb_binary: String::from_str("adb"),
            android_width: None,
            android_height: None,
            scrcpy_server_path: None,
            control_port: 0,
            scrcpy: ScrcpyConfig::default(),
        }
    }
}

impl Config {
    /// Checks the settings; the error is the first rule broken.
    pub fn validate(&self) -> (r: Result<(), ConfigError>)
        ensures
            r is Ok <==> config_error(*self) is None,
            r matches Err(e) ==> config_error(*self) == Some(e),
    {
        if self.activation_pixels == 0 {
            return Err(ConfigError::ZeroActivationPixels);
        }
        if self.release_pixels == 0 {
            return Err(ConfigError::ZeroReleasePixels);
        }
        if !(0 < self.pointer_scale_bits && self.pointer_scale_bits < INFINITY_F32_BITS) {
            return Err(ConfigError::InvalidPointerScale);
        }
        if self.poll_interval_ms == 0 {
            return Err(ConfigError::ZeroPollInterval);
        }
        if self.adb_binary.as_str().unicode_len() == 0 {
            return Err(ConfigError::EmptyAdbBinary);
        }
        if self.scrcpy.binary.as_str().unicode_len() == 0 {
            return Err(ConfigError::EmptyScrcpyBinary);
        }
        if let Some(width) = self.android_width {
            if width <= 0 {
                return Err(ConfigError::NonPositiveAndroidWidth);
            }
        }
        if let Some(height) = self.android_height {
            if height <= 0 {
                return Err(ConfigError::NonPositiveAndroidHeight);
            }
        }
        if self.android_width.is_some() != self.android_height.is_some() {
            return Err(ConfigError::UnpairedAndroidSize);
        }
        if let (Some(width), Some(height)) = (self.android_width, self.android_height) {
            if self.release_pixels > i32::MAX as u32 {
                return Err(ConfigError::ReleasePixelsTooLarge);
            }
            let release_pixels = self.release_pixels as i32;
            if release_pixels >= width || release_pixels >= height {
                return Err(ConfigError::ReleasePixelsOutsideBounds);
            }
        }
        Ok(())
    }

    /// The Android display size when both dimensions are configured.
    pub fn android_bounds(&self) -> (b: Option<AndroidBounds>)
        ensures
            b == match (self.android_width, self.android_height) {
                (Some(width), Some(height)) => Some(AndroidBounds { width, height }),
                _ => None,
            },
    {
        match (self.android_width, self.android_height) {
            (Some(width), Some(height)) => Some(AndroidBounds { width, height }),
            _ => None,
        }
    }

    /// The poll interval in milliseconds, at least one.
    pub fn poll_interval(&self) -> (ms: u64)
        ensures
            ms == if self.poll_interval_ms >= 1 {
                self.poll_interval_ms
            } else {
                1
            },
    {
        if self.poll_interval_ms >= 1 {
            self.poll_interval_ms
        } else {
            1
        }
    }
}

/// The sign bit of the `f32` with bit pattern `bits`.
pub open spec fn f32_sign(bits: u32) -> int {
    bits as int / 0x8000_0000
}

/// The biased exponent field of the `f32` with bit pattern `bits`.
pub open spec fn f32_exponent(bits: u32) -> int {
    (bits as int / 0x80_0000) % 0x100
}

/// The fraction field of the `f32` with bit pattern `bits`.
pub open spec fn f32_fraction(bits: u32) -> int {
    bits as int % 0x80_0000
}

/// Law: the pointer scale passes exactly when it is an IEEE-754 `f32` that is
/// finite (its exponent field is not all ones) and above zero (its sign bit
/// is clear and it is not zero), so every such scale, large or small, passes.
pub proof fn lemma_scale_rule_is_positive_finite(bits: u32)
    ensures
        positive_finite_f32(bits) <==> (f32_sign(bits) == 0 && f32_exponent(bits) != 0xff && !(
        f32_exponent(bits) == 0 && f32_fraction(bits) == 0)),
{
}

/// Law: the default settings with any finite pointer scale above zero pass
/// every check, and with any other scale they fail on the scale.
pub proof fn lemma_default_config_with_any_scale(c: Config)
    requires
        is_default_config(Config { pointer_scale_bits: ONE_F32_BITS, ..c }),
    ensures
        (f32_sign(c.pointer_scale_bits) == 0 && f32_exponent(c.pointer_scale_bits) != 0xff
            && c.pointer_scale_bits != 0) ==> config_error(c) is None,
        !(f32_sign(c.pointer_scale_bits) == 0 && f32_exponent(c.pointer_scale_bits) != 0xff
            && c.pointer_scale_bits != 0) ==> config_error(c) == Some(
            ConfigError::InvalidPointerScale,
        ),
{
    reveal_strlit("adb");
    reveal_strlit("scrcpy");
    lemma_scale_rule_is_positive_finite(c.pointer_scale_bits);
}

/// Law: the default configuration passes every check.
pub proof fn lemma_default_config_valid(c: Config)
    requires
        is_default_config(c),
    ensures
        config_error(c) is None,
{
    reveal_strlit("adb");
    reveal_strlit("scrcpy");
}

} // verus!
