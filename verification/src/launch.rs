//! Assembly of the compositor command line from the chosen output and
//! its capabilities, plus the environment-derived fallbacks for the
//! resolution and refresh-rate options.

use vstd::prelude::*;
use vstd::string::*;
use crate::capabilities::Capabilities;
use crate::display::{
    height_part, parse_resolution, res_error, res_ok, width_part, DisplayInfo, ResolutionError,
};
use crate::text::{
    dec_str, first_index_of, is_number, lemma_first_index_props, parse_u32, push_str, push_string,
    seq_val, u32_to_string,
};

verus! {

/// The connector name with a leading `card<N>-` prefix stripped: the
/// part after the first `-`, or the whole name if it has none.
pub open spec fn spec_output_name(name: Seq<char>) -> Seq<char> {
    let d = first_index_of(name, '-');
    if d < name.len() {
        name.subrange(d + 1, name.len() as int)
    } else {
        name
    }
}

/// Strip the `card<N>-` prefix from a connector name to get the name
/// the compositor knows the output by.
pub fn output_name(name: &str) -> (r: &str)
    ensures
        r@ == spec_output_name(name@),
{
    proof {
        lemma_first_index_props(name@, '-');
    }
    let n = name.unicode_len();
    let d = crate::text::find_char(name, '-');
    if d < n {
        name.substring_char(d + 1, n)
    } else {
        name
    }
}

/// The full compositor argument list: geometry and refresh rate, the
/// preferred output, adaptive-sync and HDR switches when supported, the
/// performance overlay, fullscreen, the exposed socket, and the user's
/// extra arguments last.
pub open spec fn spec_gamescope_args(
    d: DisplayInfo,
    c: Capabilities,
    extra: Seq<Seq<char>>,
) -> Seq<Seq<char>> {
    seq![
        "-W"@,
        dec_str(d.width as nat),
        "-H"@,
        dec_str(d.height as nat),
        "-r"@,
        dec_str(c.max_refresh_rate as nat),
        "--prefer-output"@,
        spec_output_name(d.connector_name@),
    ] + (if c.vrr {
        seq!["--adaptive-sync"@]
    } else {
        Seq::empty()
    }) + (if c.hdr {
        seq!["--hdr-enabled"@, "--hdr-itm-enable"@]
    } else {
        Seq::empty()
    }) + seq!["--mangoapp"@, "-f"@, "-e"@] + extra
}

/// Build the compositor arguments for a chosen display and its
/// capabilities, appending the user's extra arguments.
pub fn build_gamescope_args(
    display: &DisplayInfo,
    caps: &Capabilities,
    extra_args: &Vec<String>,
) -> (r: Vec<String>)
    ensures
        r.deep_view() == spec_gamescope_args(*display, *caps, extra_args.deep_view()),
{
    let mut args: Vec<String> = Vec::new();
    push_str(&mut args, "-W");
    push_string(&mut args, u32_to_string(display.width));
    push_str(&mut args, "-H");
    push_string(&mut args, u32_to_string(display.height));
    push_str(&mut args, "-r");
    push_string(&mut args, u32_to_string(caps.max_refresh_rate));
    push_str(&mut args, "--prefer-output");
    push_str(&mut args, output_name(display.connector_name.as_str()));
    if caps.vrr {
        push_str(&mut args, "--adaptive-sync");
    }
    if caps.hdr {
        push_str(&mut args, "--hdr-enabled");
        push_str(&mut args, "--hdr-itm-enable");
    }
    push_str(&mut args, "--mangoapp");
    push_str(&mut args, "-f");
    push_str(&mut args, "-e");
    let ghost base = args.deep_view();
    let mut i: usize = 0;
    while i < extra_args.len()
        invariant
            args.deep_view() == base + extra_args.deep_view().subrange(0, i as int),
            0 <= i <= extra_args@.len(),
        decreases extra_args@.len() - i,
    {
        push_string(&mut args, extra_args[i].clone());
        proof {
            assert(extra_args.deep_view().subrange(0, i + 1) =~= extra_args.deep_view().subrange(
                0,
                i as int,
            ).push(extra_args@[i as int]@));
        }
        i += 1;
    }
    proof {
        assert(extra_args.deep_view().subrange(0, extra_args@.len() as int) =~= extra_args.deep_view());
        assert(args.deep_view() =~= spec_gamescope_args(*display, *caps, extra_args.deep_view()));
    }
    args
}

/// The conservative retry arguments after a failed launch: geometry
/// only, a fixed 120 Hz cap, fullscreen, exposed socket.
pub open spec fn spec_safe_args(d: DisplayInfo) -> Seq<Seq<char>> {
    seq![
        "-W"@,
        dec_str(d.width as nat),
        "-H"@,
        dec_str(d.height as nat),
        "-r"@,
        "120"@,
        "-f"@,
        "-e"@,
    ]
}

/// Build the conservative retry arguments for a display.
pub fn build_safe_args(display: &DisplayInfo) -> (r: Vec<String>)
    ensures
        r.deep_view() == spec_safe_args(*display),
{
    let mut args: Vec<String> = Vec::new();
    push_str(&mut args, "-W");
    push_string(&mut args, u32_to_string(display.width));
    push_str(&mut args, "-H");
    push_string(&mut args, u32_to_string(display.height));
    push_str(&mut args, "-r");
    push_str(&mut args, "120");
    push_str(&mut args, "-f");
    push_str(&mut args, "-e");
    proof {
        assert(args.deep_view() =~= spec_safe_args(*display));
    }
    args
}

/// The fixed arguments used when no display could be detected at all.
pub open spec fn spec_fallback_args() -> Seq<Seq<char>> {
    seq!["-W"@, "1920"@, "-H"@, "1080"@, "-r"@, "60"@, "-f"@, "-e"@, "--"@]
}

/// Build the fallback arguments for a run without any detected display.
pub fn build_fallback_args() -> (r: Vec<String>)
    ensures
        r.deep_view() == spec_fallback_args(),
{
    let mut args: Vec<String> = Vec::new();
    push_str(&mut args, "-W");
    push_str(&mut args, "1920");
    push_str(&mut args, "-H");
    push_str(&mut args, "1080");
    push_str(&mut args, "-r");
    push_str(&mut args, "60");
    push_str(&mut args, "-f");
    push_str(&mut args, "-e");
    push_str(&mut args, "--");
    proof {
        assert(args.deep_view() =~= spec_fallback_args());
    }
    args
}

/// The nested-mode argument list for a given geometry and refresh rate.
pub open spec fn spec_nested_args(w: u32, h: u32, r: u32, extra: Seq<Seq<char>>) -> Seq<Seq<char>> {
    seq![
        "-W"@,
        dec_str(w as nat),
        "-H"@,
        dec_str(h as nat),
        "-r"@,
        dec_str(r as nat),
        "--nested-width"@,
        dec_str(w as nat),
        "--nested-height"@,
        dec_str(h as nat),
        "--nested-refresh"@,
        dec_str(r as nat),
        "-e"@,
        "--mangoapp"@,
    ] + extra
}

/// Build the arguments for a nested launch inside another compositor:
/// the geometry comes from the resolution override if given (and must
/// parse), else defaults to 1920x1080, and the refresh rate from its
/// override, else 60 Hz.
pub fn build_nested_args(
    resolution: Option<&str>,
    refresh_rate: Option<u32>,
    extra_args: &Vec<String>,
) -> (r: Result<Vec<String>, ResolutionError>)
    ensures
        ({
            let rate = match refresh_rate {
                Some(x) => x,
                None => 60u32,
            };
            match resolution {
                Some(s) => {
                    &&& (r is Ok <==> res_ok(s@))
                    &&& r is Ok ==> r->Ok_0.deep_view() == spec_nested_args(
                        seq_val(width_part(s@)) as u32,
                        seq_val(height_part(s@)) as u32,
                        rate,
                        extra_args.deep_view(),
                    )
                    &&& r is Err ==> r->Err_0 == res_error(s@)
                },
                None => r is Ok && r->Ok_0.deep_view() == spec_nested_args(
                    1920u32,
                    1080u32,
                    rate,
                    extra_args.deep_view(),
                ),
            }
        }),
{
    let (w, h): (u32, u32) = match resolution {
        Some(s) => match parse_resolution(s) {
            Ok(pair) => pair,
            Err(e) => {
                return Err(e);
            },
        },
        None => (1920, 1080),
    };
    let rate: u32 = match refresh_rate {
        Some(x) => x,
        None => 60,
    };
    let mut args: Vec<String> = Vec::new();
    push_str(&mut args, "-W");
    push_string(&mut args, u32_to_string(w));
    push_str(&mut args, "-H");
    push_string(&mut args, u32_to_string(h));
    push_str(&mut args, "-r");
    push_string(&mut args, u32_to_string(rate));
    push_str(&mut args, "--nested-width");
    push_string(&mut args, u32_to_string(w));
    push_str(&mut args, "--nested-height");
    push_string(&mut args, u32_to_string(h));
    push_str(&mut args, "--nested-refresh");
    push_string(&mut args, u32_to_string(rate));
    push_str(&mut args, "-e");
    push_str(&mut args, "--mangoapp");
    let ghost base = args.deep_view();
    let mut i: usize = 0;
    while i < extra_args.len()
        invariant
            args.deep_view() == base + extra_args.deep_view().subrange(0, i as int),
            0 <= i <= extra_args@.len(),
        decreases extra_args@.len() - i,
    {
        push_string(&mut args, extra_args[i].clone());
        proof {
            assert(extra_args.deep_view().subrange(0, i + 1) =~= extra_args.deep_view().subrange(
                0,
                i as int,
            ).push(extra_args@[i as int]@));
        }
        i += 1;
    }
    proof {
        assert(extra_args.deep_view().subrange(0, extra_args@.len() as int) =~= extra_args.deep_view());
        assert(args.deep_view() =~= spec_nested_args(w, h, rate, extra_args.deep_view()));
    }
    Ok(args)
}

/// Resolution and refresh-rate values filled in from the streaming
/// client's environment when the explicit options are absent.
///
/// A client geometry is taken only when both the width and the height
/// variables are present, and is formatted as `<width>x<height>`
/// verbatim; a client frame rate is taken only when it is a plain
/// decimal numeral that fits in a `u32`.
pub fn sunshine_fallbacks(
    resolution: Option<String>,
    refresh_rate: Option<u32>,
    client_width: Option<&str>,
    client_height: Option<&str>,
    client_fps: Option<&str>,
) -> (r: (Option<String>, Option<u32>))
    ensures
        ({
            match resolution {
                Some(res) => r.0 is Some && r.0->0@ == res@,
                None => match (client_width, client_height) {
                    (Some(w), Some(h)) => r.0 is Some && r.0->0@ == w@ + "x"@ + h@,
                    _ => r.0 is None,
                },
            }
        }),
        ({
            match refresh_rate {
                Some(rate) => r.1 == Some(rate),
                None => match client_fps {
                    Some(fps) => if is_number(fps@) && seq_val(fps@) <= u32::MAX {
                        r.1 == Some(seq_val(fps@) as u32)
                    } else {
                        r.1 is None
                    },
                    None => r.1 is None,
                },
            }
        }),
{
    let res: Option<String> = match resolution {
        Some(res) => Some(res),
        None => match (client_width, client_height) {
            (Some(w), Some(h)) => {
                let mut s = String::from_str(w);
                s.append("x");
                s.append(h);
                Some(s)
            },
            _ => None,
        },
    };
    let rate: Option<u32> = match refresh_rate {
        Some(rate) => Some(rate),
        None => match client_fps {
            Some(fps) => parse_u32(fps),
            None => None,
        },
    };
    (res, rate)
}

} // verus!
