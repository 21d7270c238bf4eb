//! Engine settings read from the configuration file.
use vstd::prelude::*;

verus! {

/// HDR rendering mode.
#[derive(Debug, Clone, Copy, PartialEq, Eq, Structural)]
pub enum HdrMode {
    /// Use HDR when the display supports it.
    Auto,
    /// Ask for HDR; falls back to SDR when the display lacks it.
    Enabled,
    /// Always render in SDR.
    Disabled,
}

/// VSync is on unless the configuration says otherwise.
pub fn default_vsync() -> (r: bool)
    ensures
        r,
{
    true
}

/// HDR is detected unless the configuration says otherwise.
pub fn default_hdr_mode() -> (r: HdrMode)
    ensures
        r == HdrMode::Auto,
{
    HdrMode::Auto
}

} // verus!
