//! Tonemapping settings of the HDR pipeline.
use vstd::prelude::*;

verus! {

/// Tonemapping mode of the HDR pipeline.
#[derive(Debug, Clone, Copy, PartialEq, Eq, Structural)]
pub enum TonemappingMode {
    /// SDR output with ACES tonemapping.
    Sdr,
    /// HDR output with PQ tonemapping.
    Hdr,
}

/// The mode a scene renders with: HDR exactly when the surface runs in HDR.
pub fn tonemapping_mode_for(is_hdr_active: bool) -> (r: TonemappingMode)
    ensures
        r == (if is_hdr_active { TonemappingMode::Hdr } else { TonemappingMode::Sdr }),
{
    if is_hdr_active {
        TonemappingMode::Hdr
    } else {
        TonemappingMode::Sdr
    }
}

/// The value of the shader's `mode` uniform: 1 for HDR, 0 for SDR.
pub fn tonemap_mode_code(mode: TonemappingMode) -> (r: u32)
    ensures
        r == (if mode == TonemappingMode::Hdr { 1u32 } else { 0u32 }),
{
    if mode == TonemappingMode::Hdr {
        1
    } else {
        0
    }
}

} // verus!
