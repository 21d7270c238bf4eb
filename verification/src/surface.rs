//! Choice of the swap-chain format and present mode among what the display
//! surface offers.
use vstd::prelude::*;
use crate::config::HdrMode;

verus! {

/// The formats usable for HDR output, and the rest.
#[derive(Debug, Clone, Copy, PartialEq, Eq, Structural)]
pub enum HdrFormat {
    /// 16-bit float RGBA (Metal/macOS), the preferred HDR format.
    Rgba16Float,
    /// 10-bit RGB with 2-bit alpha (DX12/Windows), the fallback HDR format.
    Rgb10a2Unorm,
    /// Any format not usable for HDR output.
    NotHdr,
}

/// What the choice reads of a texture format the surface offers.
#[derive(Debug, Clone, Copy, PartialEq, Eq, Structural)]
pub struct SurfaceFormat {
    /// Which HDR format it is, if any.
    pub hdr: HdrFormat,
    /// The format is an sRGB one.
    pub srgb: bool,
}

/// How frames are presented (the modes a surface can offer).
#[derive(Debug, Clone, Copy, PartialEq, Eq, Structural)]
pub enum PresentMode {
    AutoVsync,
    AutoNoVsync,
    Fifo,
    FifoRelaxed,
    Immediate,
    Mailbox,
}

/// `i` is the first format of HDR kind `kind`.
pub open spec fn first_of(formats: Seq<SurfaceFormat>, kind: HdrFormat, i: int) -> bool {
    &&& 0 <= i < formats.len()
    &&& formats[i].hdr == kind
    &&& forall|j: int| 0 <= j < i ==> (#[trigger] formats[j]).hdr != kind
}

/// Some format is of HDR kind `kind`.
pub open spec fn has_kind(formats: Seq<SurfaceFormat>, kind: HdrFormat) -> bool {
    exists|i: int| 0 <= i < formats.len() && (#[trigger] formats[i]).hdr == kind
}

/// Some format is usable for HDR output.
pub open spec fn has_hdr(formats: Seq<SurfaceFormat>) -> bool {
    has_kind(formats, HdrFormat::Rgba16Float) || has_kind(formats, HdrFormat::Rgb10a2Unorm)
}

/// The HDR choice: the first `Rgba16Float` format when there is one, else
/// the first `Rgb10a2Unorm` one.
pub open spec fn hdr_choice(formats: Seq<SurfaceFormat>, i: int) -> bool {
    if has_kind(formats, HdrFormat::Rgba16Float) {
        first_of(formats, HdrFormat::Rgba16Float, i)
    } else {
        first_of(formats, HdrFormat::Rgb10a2Unorm, i)
    }
}

/// Some format is sRGB.
pub open spec fn has_srgb(formats: Seq<SurfaceFormat>) -> bool {
    exists|i: int| 0 <= i < formats.len() && (#[trigger] formats[i]).srgb
}

/// The SDR choice: the first sRGB format, else the first format.
pub open spec fn sdr_choice(formats: Seq<SurfaceFormat>, i: int) -> bool {
    if has_srgb(formats) {
        &&& 0 <= i < formats.len()
        &&& formats[i].srgb
        &&& forall|j: int| 0 <= j < i ==> !(#[trigger] formats[j]).srgb
    } else {
        i == 0
    }
}

/// The present mode chosen: FIFO under VSync, else Immediate, else
/// Mailbox, else the first mode offered.
pub open spec fn present_choice(vsync: bool, modes: Seq<PresentMode>) -> PresentMode {
    if vsync {
        PresentMode::Fifo
    } else if modes.contains(PresentMode::Immediate) {
        PresentMode::Immediate
    } else if modes.contains(PresentMode::Mailbox) {
        PresentMode::Mailbox
    } else {
        modes[0]
    }
}

fn find_first(formats: &[SurfaceFormat], kind: HdrFormat) -> (r: Option<usize>)
    ensures
        match r {
            Some(i) => first_of(formats@, kind, i as int),
            None => !has_kind(formats@, kind),
        },
{
    let mut i: usize = 0;
    while i < formats.len()
        invariant
            i <= formats@.len(),
            forall|j: int| 0 <= j < i ==> (#[trigger] formats@[j]).hdr != kind,
        decreases formats@.len() - i,
    {
        if formats[i].hdr == kind {
            return Some(i);
        }
        i = i + 1;
    }
    None
}

/// Index of the HDR format to use, if any: `Rgba16Float` is preferred,
/// `Rgb10a2Unorm` is the fallback.
pub fn detect_hdr_support(formats: &[SurfaceFormat]) -> (r: Option<usize>)
    ensures
        match r {
            Some(i) => hdr_choice(formats@, i as int),
            None => !has_hdr(formats@),
        },
{
    match find_first(formats, HdrFormat::Rgba16Float) {
        Some(i) => Some(i),
        None => find_first(formats, HdrFormat::Rgb10a2Unorm),
    }
}

/// Index of the SDR format: the first sRGB one, else the first one.
pub fn select_sdr_format(formats: &[SurfaceFormat]) -> (r: usize)
    requires
        formats@.len() > 0,
    ensures
        r < formats@.len(),
        sdr_choice(formats@, r as int),
{
    let mut i: usize = 0;
    while i < formats.len()
        invariant
            i <= formats@.len(),
            forall|j: int| 0 <= j < i ==> !(#[trigger] formats@[j]).srgb,
        decreases formats@.len() - i,
    {
        if formats[i].srgb {
            return i;
        }
        i = i + 1;
    }
    0
}

/// The swap-chain format (an index into `formats`) and whether HDR output
/// is on: with HDR disabled, the SDR choice; otherwise the HDR choice when
/// an HDR format is offered, else the SDR choice.
pub fn choose_surface_format(mode: HdrMode, formats: &[SurfaceFormat]) -> (r: (usize, bool))
    requires
        formats@.len() > 0,
    ensures
        r.0 < formats@.len(),
        r.1 == (mode != HdrMode::Disabled && has_hdr(formats@)),
        r.1 ==> hdr_choice(formats@, r.0 as int),
        !r.1 ==> sdr_choice(formats@, r.0 as int),
{
    match mode {
        HdrMode::Disabled => (select_sdr_format(formats), false),
        _ => match detect_hdr_support(formats) {
            Some(i) => (i, true),
            None => (select_sdr_format(formats), false),
        },
    }
}

/// The present mode: FIFO under VSync, else Immediate, else Mailbox when
/// offered, else the first mode offered.
pub fn select_present_mode(vsync: bool, modes: &[PresentMode]) -> (r: PresentMode)
    requires
        vsync || modes@.len() > 0,
    ensures
        r == present_choice(vsync, modes@),
{
    if vsync {
        return PresentMode::Fifo;
    }
    let mut has_immediate = false;
    let mut has_mailbox = false;
    let mut i: usize = 0;
    while i < modes.len()
        invariant
            i <= modes@.len(),
            has_immediate == modes@.subrange(0, i as int).contains(PresentMode::Immediate),
            has_mailbox == modes@.subrange(0, i as int).contains(PresentMode::Mailbox),
        decreases modes@.len() - i,
    {
        let m = modes[i];
        proof {
            let s = modes@.subrange(0, i + 1);
            assert(s =~= modes@.subrange(0, i as int).push(m));
            assert(s[i as int] == m);
            if modes@.subrange(0, i as int).contains(PresentMode::Immediate) {
                let k = choose|k: int| 0 <= k < i && modes@.subrange(0, i as int)[k] == PresentMode::Immediate;
                assert(s[k] == PresentMode::Immediate);
            }
            if modes@.subrange(0, i as int).contains(PresentMode::Mailbox) {
                let k = choose|k: int| 0 <= k < i && modes@.subrange(0, i as int)[k] == PresentMode::Mailbox;
                assert(s[k] == PresentMode::Mailbox);
            }
            if s.contains(PresentMode::Immediate) && m != PresentMode::Immediate {
                let k = choose|k: int| 0 <= k < i + 1 && s[k] == PresentMode::Immediate;
                assert(modes@.subrange(0, i as int)[k] == PresentMode::Immediate);
            }
            if s.contains(PresentMode::Mailbox) && m != PresentMode::Mailbox {
                let k = choose|k: int| 0 <= k < i + 1 && s[k] == PresentMode::Mailbox;
                assert(modes@.subrange(0, i as int)[k] == PresentMode::Mailbox);
            }
        }
        if m == PresentMode::Immediate {
            has_immediate = true;
        }
        if m == PresentMode::Mailbox {
            has_mailbox = true;
        }
        i = i + 1;
    }
    assert(modes@.subrange(0, modes@.len() as int) =~= modes@);
    if has_immediate {
        PresentMode::Immediate
    } else if has_mailbox {
        PresentMode::Mailbox
    } else {
        modes[0]
    }
}

/// VSync is honoured: with VSync on, the present mode is FIFO whatever
/// modes the surface offers.
pub proof fn law_vsync_presents_fifo(modes: Seq<PresentMode>)
    ensures
        present_choice(true, modes) == PresentMode::Fifo,
{
}

/// Without VSync the mode is one the surface offers, Immediate exactly when
/// it is offered, and Mailbox when Immediate is not but Mailbox is.
pub proof fn law_no_vsync_picks_an_offered_mode(modes: Seq<PresentMode>)
    requires
        modes.len() > 0,
    ensures
        modes.contains(present_choice(false, modes)),
        (present_choice(false, modes) == PresentMode::Immediate) == modes.contains(PresentMode::Immediate),
        !modes.contains(PresentMode::Immediate) && modes.contains(PresentMode::Mailbox) ==> present_choice(
            false,
            modes,
        ) == PresentMode::Mailbox,
{
    if !modes.contains(PresentMode::Immediate) && !modes.contains(PresentMode::Mailbox) {
        assert(modes[0] == modes[0]);
    }
}

} // verus!
