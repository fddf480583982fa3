//! Presentation helpers for the interactive list: the label each output
//! is rendered with, the capability summary lines, and the centered
//! popup geometry.

use vstd::prelude::*;
use vstd::string::*;
use crate::capabilities::Capabilities;
use crate::display::DisplayInfo;
use crate::text::{dec_str, push_str, push_string, u32_to_string};

verus! {

/// The list entry for one output: `<name> (<resolution>)`.
pub open spec fn spec_tui_label(d: DisplayInfo) -> Seq<char> {
    d.connector_name@ + " ("@ + d.resolution@ + ")"@
}

/// Format one output's list entry.
pub fn tui_label(d: &DisplayInfo) -> (r: String)
    ensures
        r@ == spec_tui_label(*d),
{
    let mut s = String::from_str(d.connector_name.as_str());
    s.append(" (");
    s.append(d.resolution.as_str());
    s.append(")");
    s
}

/// The capability summary, one fact per line.
pub open spec fn spec_capability_lines(c: Capabilities) -> Seq<Seq<char>> {
    seq![
        if c.vrr {
            "✓ VRR/Adaptive Sync supported"@
        } else {
            "✗ VRR/Adaptive Sync not detected"@
        },
        if c.hdr {
            "✓ HDR supported"@
        } else {
            "✗ HDR not detected"@
        },
        if c.max_bpc == 12 {
            "✓ 12-bit color depth supported"@
        } else if c.max_bpc == 10 {
            "✓ 10-bit color depth supported"@
        } else {
            "✓ 8-bit color depth (standard)"@
        },
        "✓ Maximum refresh rate: "@ + dec_str(c.max_refresh_rate as nat) + "Hz"@,
    ]
}

/// Format the capability summary printed before a launch.
pub fn capability_lines(caps: &Capabilities) -> (r: Vec<String>)
    ensures
        r.deep_view() == spec_capability_lines(*caps),
{
    let mut lines: Vec<String> = Vec::new();
    if caps.vrr {
        push_str(&mut lines, "✓ VRR/Adaptive Sync supported");
    } else {
        push_str(&mut lines, "✗ VRR/Adaptive Sync not detected");
    }
    if caps.hdr {
        push_str(&mut lines, "✓ HDR supported");
    } else {
        push_str(&mut lines, "✗ HDR not detected");
    }
    if caps.max_bpc == 12 {
        push_str(&mut lines, "✓ 12-bit color depth supported");
    } else if caps.max_bpc == 10 {
        push_str(&mut lines, "✓ 10-bit color depth supported");
    } else {
        push_str(&mut lines, "✓ 8-bit color depth (standard)");
    }
    let mut rate_line = String::from_str("✓ Maximum refresh rate: ");
    let rate = u32_to_string(caps.max_refresh_rate);
    rate_line.append(rate.as_str());
    rate_line.append("Hz");
    push_string(&mut lines, rate_line);
    proof {
        assert(lines.deep_view() =~= spec_capability_lines(*caps));
    }
    lines
}

/// A rectangle of terminal cells, as the renderer measures them.
#[derive(Debug, Clone, Copy, PartialEq, Eq, Structural)]
pub struct Rect {
    pub x: u16,
    pub y: u16,
    pub width: u16,
    pub height: u16,
}

/// A rectangle covering the given percentages of `r`, centered in it.
pub fn centered_rect(percent_x: u16, percent_y: u16, r: Rect) -> (c: Rect)
    requires
        percent_x <= 100,
        percent_y <= 100,
        r.x + r.width <= u16::MAX,
        r.y + r.height <= u16::MAX,
    ensures
        c.width as int == r.width as int * percent_x as int / 100,
        c.height as int == r.height as int * percent_y as int / 100,
        c.x as int == r.x as int + (r.width as int - c.width as int) / 2,
        c.y as int == r.y as int + (r.height as int - c.height as int) / 2,
{
    proof {
        assert(r.width as int * percent_x as int <= r.width as int * 100) by (nonlinear_arith)
            requires
                percent_x <= 100,
        ;
        assert(r.height as int * percent_y as int <= r.height as int * 100) by (nonlinear_arith)
            requires
                percent_y <= 100,
        ;
    }
    let w = ((r.width as u32 * percent_x as u32) / 100) as u16;
    let h = ((r.height as u32 * percent_y as u32) / 100) as u16;
    Rect { x: r.x + (r.width - w) / 2, y: r.y + (r.height - h) / 2, width: w, height: h }
}

} // verus!
