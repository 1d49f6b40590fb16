//! Compositor and theme configuration.
//!
//! Configuration is plain immutable data with explicit defaults; each
//! compositor owns one configuration, and there is no global instance.

use vstd::prelude::*;

verus! {

/// Processing mode for the compositor.
#[derive(Debug, Clone, Copy, PartialEq, Eq, Structural)]
pub enum MustangMode {
    /// CPU-only processing (fallback).
    CpuOnly,
    /// GPU-accelerated processing.
    GpuAccelerated,
    /// Hybrid mode (GPU with CPU fallback).
    Hybrid,
}

impl Default for MustangMode {
    fn default() -> (m: MustangMode)
        ensures
            m == MustangMode::GpuAccelerated,
    {
        MustangMode::GpuAccelerated
    }
}

/// Configuration for the effect compositor.
#[derive(Debug, Clone)]
pub struct MustangConfig {
    /// Processing mode.
    pub mode: MustangMode,
    /// Enable effect caching.
    pub enable_caching: bool,
    /// Maximum cache size.
    pub max_cache_size: usize,
    /// Enable debug visualization.
    pub enable_debug: bool,
    /// GPU device selection.
    pub gpu_device: Option<String>,
}

impl MustangConfig {
    /// The default configuration: GPU-accelerated, caching on with room
    /// for a thousand components, no debug output, no device hint.
    pub open spec fn is_default(self) -> bool {
        &&& self.mode == MustangMode::GpuAccelerated
        &&& self.enable_caching == true
        &&& self.max_cache_size == 1000usize
        &&& self.enable_debug == false
        &&& self.gpu_device is None
    }

    /// Create a new configuration with the defaults.
    pub fn new() -> (c: MustangConfig)
        ensures
            c.is_default(),
    {
        MustangConfig {
            mode: MustangMode::GpuAccelerated,
            enable_caching: true,
            max_cache_size: 1000,
            enable_debug: false,
            gpu_device: None,
        }
    }

    /// Set processing mode.
    pub fn mode(self, mode: MustangMode) -> (c: MustangConfig)
        ensures
            c == (MustangConfig { mode, ..self }),
    {
        MustangConfig { mode, ..self }
    }

    /// Enable or disable caching.
    pub fn enable_caching(self, enable: bool) -> (c: MustangConfig)
        ensures
            c == (MustangConfig { enable_caching: enable, ..self }),
    {
        MustangConfig { enable_caching: enable, ..self }
    }

    /// Set maximum cache size.
    pub fn max_cache_size(self, size: usize) -> (c: MustangConfig)
        ensures
            c == (MustangConfig { max_cache_size: size, ..self }),
    {
        MustangConfig { max_cache_size: size, ..self }
    }

    /// Enable or disable debug visualization.
    pub fn enable_debug(self, enable: bool) -> (c: MustangConfig)
        ensures
            c == (MustangConfig { enable_debug: enable, ..self }),
    {
        MustangConfig { enable_debug: enable, ..self }
    }

    /// Set the GPU device hint.
    pub fn gpu_device(self, device: &str) -> (c: MustangConfig)
        ensures
            c.mode == self.mode,
            c.enable_caching == self.enable_caching,
            c.max_cache_size == self.max_cache_size,
            c.enable_debug == self.enable_debug,
            c.gpu_device is Some,
            c.gpu_device.unwrap()@ == device@,
    {
        MustangConfig { gpu_device: Some(device.to_owned()), ..self }
    }

    /// Create a CPU-only configuration.
    pub fn cpu_only() -> (c: MustangConfig)
        ensures
            c.mode == MustangMode::CpuOnly,
            c.enable_caching == true,
            c.max_cache_size == 1000usize,
            c.enable_debug == false,
            c.gpu_device is None,
    {
        MustangConfig::new().mode(MustangMode::CpuOnly)
    }

    /// Create a GPU-accelerated configuration.
    pub fn gpu_accelerated() -> (c: MustangConfig)
        ensures
            c.mode == MustangMode::GpuAccelerated,
            c.enable_caching == true,
            c.max_cache_size == 1000usize,
            c.enable_debug == false,
            c.gpu_device is None,
    {
        MustangConfig::new().mode(MustangMode::GpuAccelerated)
    }

    /// Create a hybrid configuration.
    pub fn hybrid() -> (c: MustangConfig)
        ensures
            c.mode == MustangMode::Hybrid,
            c.enable_caching == true,
            c.max_cache_size == 1000usize,
            c.enable_debug == false,
            c.gpu_device is None,
    {
        MustangConfig::new().mode(MustangMode::Hybrid)
    }
}

impl Default for MustangConfig {
    fn default() -> (c: MustangConfig)
        ensures
            c.is_default(),
    {
        MustangConfig::new()
    }
}

/// Color scheme for themes.
#[derive(Debug, Clone, Copy, PartialEq, Eq, Structural)]
pub enum ColorScheme {
    Light,
    Dark,
    HighContrast,
}

impl Default for ColorScheme {
    fn default() -> (c: ColorScheme)
        ensures
            c == ColorScheme::Light,
    {
        ColorScheme::Light
    }
}

/// Configuration for application themes.
#[derive(Debug, Clone)]
pub struct ThemeConfig {
    /// Theme name (for example `"glass"`, `"default"`).
    pub name: String,
    /// Color scheme.
    pub color_scheme: ColorScheme,
    /// Enable transparency.
    pub transparent: bool,
    /// Border radius, thousandths of a pixel.
    pub border_radius: i64,
}

impl ThemeConfig {
    /// Create a new theme configuration with the defaults.
    pub fn new() -> (t: ThemeConfig)
        ensures
            t.name@ == "default"@,
            t.color_scheme == ColorScheme::Light,
            t.transparent == false,
            t.border_radius == 8000int,
    {
        ThemeConfig {
            name: "default".to_owned(),
            color_scheme: ColorScheme::Light,
            transparent: false,
            border_radius: 8000,
        }
    }

    /// Set the theme name.
    pub fn name(self, name: &str) -> (t: ThemeConfig)
        ensures
            t.name@ == name@,
            t.color_scheme == self.color_scheme,
            t.transparent == self.transparent,
            t.border_radius == self.border_radius,
    {
        ThemeConfig { name: name.to_owned(), ..self }
    }
}

impl Default for ThemeConfig {
    fn default() -> (t: ThemeConfig)
        ensures
            t.name@ == "default"@,
            t.color_scheme == ColorScheme::Light,
            t.transparent == false,
            t.border_radius == 8000int,
    {
        ThemeConfig::new()
    }
}

} // verus!
