//! The capability-inference engine: turning decoded EDID text and a
//! display's geometry into a structured record of display facts, and
//! applying the user's explicit overrides to it.

use vstd::prelude::*;
use crate::display::DisplayInfo;
use crate::hz::{best_hz, lemma_best_hz_bounds, max_hz_reading};
use crate::text::{contains_seq, str_contains};

verus! {

/// Inferred facts about a display: adaptive-sync support, high dynamic
/// range support, the largest refresh rate to drive it at, and its color
/// depth in bits per channel.
#[derive(Debug, Clone, Copy, PartialEq, Eq, Structural)]
pub struct Capabilities {
    pub vrr: bool,
    pub hdr: bool,
    pub max_refresh_rate: u32,
    pub max_bpc: u32,
}

/// The user's explicit directives: safe mode, forced-on and forced-off
/// feature flags, and an outright refresh-rate override.
#[derive(Debug, Clone, Copy, PartialEq, Eq, Structural)]
pub struct SessionOptions {
    pub safe_mode: bool,
    pub force_vrr: bool,
    pub no_vrr: bool,
    pub force_hdr: bool,
    pub no_hdr: bool,
    pub refresh_rate: Option<u32>,
}

impl SessionOptions {
    /// No safe mode and no overrides: inference alone decides.
    pub fn none() -> (r: SessionOptions)
        ensures
            r == spec_no_options(),
    {
        SessionOptions {
            safe_mode: false,
            force_vrr: false,
            no_vrr: false,
            force_hdr: false,
            no_hdr: false,
            refresh_rate: None,
        }
    }
}

/// The option record with nothing set.
pub open spec fn spec_no_options() -> SessionOptions {
    SessionOptions {
        safe_mode: false,
        force_vrr: false,
        no_vrr: false,
        force_hdr: false,
        no_hdr: false,
        refresh_rate: None,
    }
}

/// The conservative record safe mode always yields.
pub open spec fn spec_safe_capabilities() -> Capabilities {
    Capabilities { vrr: false, hdr: false, max_refresh_rate: 60, max_bpc: 8 }
}

/// Refresh rate assumed from geometry alone: high-resolution panels are
/// assumed to be high-refresh gaming displays.
pub open spec fn spec_default_refresh(width: u32) -> u32 {
    if width >= 2560 {
        144
    } else {
        60
    }
}

/// The record inferred when no EDID text is available.
pub open spec fn spec_default_capabilities(width: u32) -> Capabilities {
    Capabilities { vrr: false, hdr: false, max_refresh_rate: spec_default_refresh(width), max_bpc: 8 }
}

/// Any of the adaptive-sync markers, vendor-neutral or vendor-specific.
pub open spec fn has_vrr_marker(t: Seq<char>) -> bool {
    ||| contains_seq(t, "Variable Refresh Rate"@)
    ||| contains_seq(t, "FreeSync"@)
    ||| contains_seq(t, "G-SYNC Compatible"@)
    ||| contains_seq(t, "VESA VRR"@)
    ||| contains_seq(t, "Vendor-Specific Data Block (AMD)"@)
}

/// Any of the high-dynamic-range markers.
pub open spec fn has_hdr_marker(t: Seq<char>) -> bool {
    ||| contains_seq(t, "HDR Static Metadata"@)
    ||| contains_seq(t, "HDR10"@)
    ||| contains_seq(t, "SMPTE ST 2084"@)
}

/// Bits per color channel read from explicit phrasing; 12-bit markers
/// take precedence over 10-bit ones, and 8 is the default.
pub open spec fn spec_bpc(t: Seq<char>) -> u32 {
    if contains_seq(t, "12 bits per"@) || contains_seq(t, "Bits per primary color channel: 12"@) {
        12
    } else if contains_seq(t, "10 bits per"@) || contains_seq(
        t,
        "Bits per primary color channel: 10"@,
    ) {
        10
    } else {
        8
    }
}

/// The record inferred from decoded EDID text plus geometry: marker scans
/// for adaptive sync, HDR and color depth, and the largest believable
/// refresh-rate reading, falling back to the geometry default when no
/// reading qualifies.
pub open spec fn spec_edid_capabilities(t: Seq<char>, width: u32) -> Capabilities {
    Capabilities {
        vrr: has_vrr_marker(t),
        hdr: has_hdr_marker(t),
        max_refresh_rate: if best_hz(t) > 0 {
            best_hz(t) as u32
        } else {
            spec_default_refresh(width)
        },
        max_bpc: spec_bpc(t),
    }
}

/// Override precedence per field: forced-on beats forced-off beats the
/// inferred value, and an explicit refresh-rate number wins outright.
pub open spec fn spec_apply_overrides(c: Capabilities, o: SessionOptions) -> Capabilities {
    Capabilities {
        vrr: if o.force_vrr {
            true
        } else if o.no_vrr {
            false
        } else {
            c.vrr
        },
        hdr: if o.force_hdr {
            true
        } else if o.no_hdr {
            false
        } else {
            c.hdr
        },
        max_refresh_rate: if o.refresh_rate is Some {
            o.refresh_rate->0
        } else {
            c.max_refresh_rate
        },
        max_bpc: c.max_bpc,
    }
}

/// The whole engine: safe mode short-circuits everything; otherwise the
/// record is inferred from the text (or geometry alone when there is
/// none) and the user's overrides are applied on top.
pub open spec fn spec_infer_capabilities(
    width: u32,
    text: Option<Seq<char>>,
    o: SessionOptions,
) -> Capabilities {
    if o.safe_mode {
        spec_safe_capabilities()
    } else {
        spec_apply_overrides(
            match text {
                Some(t) => spec_edid_capabilities(t, width),
                None => spec_default_capabilities(width),
            },
            o,
        )
    }
}

/// Capabilities assumed when no EDID text is available, from geometry
/// alone.
pub fn default_capabilities(display: &DisplayInfo) -> (r: Capabilities)
    ensures
        r == spec_default_capabilities(display.width),
{
    Capabilities {
        vrr: false,
        hdr: false,
        max_refresh_rate: if display.width >= 2560 {
            144
        } else {
            60
        },
        max_bpc: 8,
    }
}

/// Scan decoded EDID text for capability markers and refresh-rate
/// readings.
///
/// The result's refresh rate always lies between 60 and 500 Hz, and the
/// color depth is one of 8, 10 or 12.
pub fn parse_edid_capabilities(edid_text: &str, display: &DisplayInfo) -> (r: Capabilities)
    ensures
        r == spec_edid_capabilities(edid_text@, display.width),
        60 <= r.max_refresh_rate <= 500,
        r.max_bpc == 8 || r.max_bpc == 10 || r.max_bpc == 12,
{
    let vrr = str_contains(edid_text, "Variable Refresh Rate") || str_contains(
        edid_text,
        "FreeSync",
    ) || str_contains(edid_text, "G-SYNC Compatible") || str_contains(edid_text, "VESA VRR")
        || str_contains(edid_text, "Vendor-Specific Data Block (AMD)");
    let hdr = str_contains(edid_text, "HDR Static Metadata") || str_contains(edid_text, "HDR10")
        || str_contains(edid_text, "SMPTE ST 2084");
    let max_bpc: u32 = if str_contains(edid_text, "12 bits per") || str_contains(
        edid_text,
        "Bits per primary color channel: 12",
    ) {
        12
    } else if str_contains(edid_text, "10 bits per") || str_contains(
        edid_text,
        "Bits per primary color channel: 10",
    ) {
        10
    } else {
        8
    };
    let best = max_hz_reading(edid_text);
    proof {
        lemma_best_hz_bounds(edid_text@);
    }
    let max_refresh_rate = if best > 0 {
        best
    } else if display.width >= 2560 {
        144
    } else {
        60
    };
    Capabilities { vrr, hdr, max_refresh_rate, max_bpc }
}

/// Apply the user's explicit directives on top of an inferred record.
pub fn apply_overrides(caps: Capabilities, opts: &SessionOptions) -> (r: Capabilities)
    ensures
        r == spec_apply_overrides(caps, *opts),
{
    let vrr = if opts.force_vrr {
        true
    } else if opts.no_vrr {
        false
    } else {
        caps.vrr
    };
    let hdr = if opts.force_hdr {
        true
    } else if opts.no_hdr {
        false
    } else {
        caps.hdr
    };
    let max_refresh_rate = match opts.refresh_rate {
        Some(rate) => rate,
        None => caps.max_refresh_rate,
    };
    Capabilities { vrr, hdr, max_refresh_rate, max_bpc: caps.max_bpc }
}

/// Infer a display's capabilities from its decoded EDID text (if any
/// could be obtained) and the user's directives.
pub fn infer_capabilities(
    display: &DisplayInfo,
    edid_text: Option<&str>,
    opts: &SessionOptions,
) -> (r: Capabilities)
    ensures
        r == spec_infer_capabilities(
            display.width,
            match edid_text {
                Some(t) => Some(t@),
                None => None,
            },
            *opts,
        ),
{
    if opts.safe_mode {
        return Capabilities { vrr: false, hdr: false, max_refresh_rate: 60, max_bpc: 8 };
    }
    let base = match edid_text {
        Some(t) => parse_edid_capabilities(t, display),
        None => default_capabilities(display),
    };
    apply_overrides(base, opts)
}

/// Safe mode always yields the fixed conservative record, whatever the
/// EDID text said and whatever other overrides were given.
pub proof fn lemma_safe_mode_conservative(width: u32, text: Option<Seq<char>>, opts: SessionOptions)
    requires
        opts.safe_mode,
    ensures
        spec_infer_capabilities(width, text, opts) == spec_safe_capabilities(),
{
}

/// Marker scanning: a `FreeSync` mention alone is enough for adaptive
/// sync, and with no adaptive-sync and no HDR marker both facts stay
/// off.
pub proof fn lemma_marker_inference(t: Seq<char>, width: u32)
    ensures
        contains_seq(t, "FreeSync"@) ==> spec_edid_capabilities(t, width).vrr,
        !has_vrr_marker(t) ==> !spec_edid_capabilities(t, width).vrr,
        !has_hdr_marker(t) ==> !spec_edid_capabilities(t, width).hdr,
{
}

/// Override precedence: forced-on wins over the inferred value and over
/// forced-off, and an explicit refresh-rate number wins outright.
pub proof fn lemma_override_precedence(width: u32, text: Option<Seq<char>>, opts: SessionOptions)
    requires
        !opts.safe_mode,
    ensures
        opts.force_vrr ==> spec_infer_capabilities(width, text, opts).vrr,
        opts.force_hdr ==> spec_infer_capabilities(width, text, opts).hdr,
        !opts.force_vrr && opts.no_vrr ==> !spec_infer_capabilities(width, text, opts).vrr,
        !opts.force_hdr && opts.no_hdr ==> !spec_infer_capabilities(width, text, opts).hdr,
        opts.refresh_rate is Some ==> spec_infer_capabilities(width, text, opts).max_refresh_rate
            == opts.refresh_rate->0,
{
}

} // verus!
