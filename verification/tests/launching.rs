use console_mode::capabilities::Capabilities;
use console_mode::display::{DisplayInfo, ResolutionError};
use console_mode::launch::{
    build_fallback_args, build_gamescope_args, build_nested_args, build_safe_args, output_name,
    sunshine_fallbacks,
};
use console_mode::menu::{launcher_label, launcher_menu, match_selection, menu_index};
use console_mode::ui::{capability_lines, centered_rect, tui_label, Rect};

fn display(name: &str, resolution: &str, width: u32, height: u32) -> DisplayInfo {
    DisplayInfo {
        connector_name: name.to_string(),
        connector_path: format!("/sys/class/drm/{}", name),
        resolution: resolution.to_string(),
        width,
        height,
    }
}

fn full_caps() -> Capabilities {
    Capabilities { vrr: true, hdr: true, max_refresh_rate: 144, max_bpc: 10 }
}

fn plain_caps() -> Capabilities {
    Capabilities { vrr: false, hdr: false, max_refresh_rate: 60, max_bpc: 8 }
}

#[test]
fn gamescope_args_full_featured() {
    let d = display("card1-HDMI-A-1", "3840x2160", 3840, 2160);
    let extra = vec!["--steam".to_string()];
    let args = build_gamescope_args(&d, &full_caps(), &extra);
    assert_eq!(
        args,
        vec![
            "-W", "3840", "-H", "2160", "-r", "144", "--prefer-output", "HDMI-A-1",
            "--adaptive-sync", "--hdr-enabled", "--hdr-itm-enable", "--mangoapp", "-f", "-e",
            "--steam",
        ]
    );
}

#[test]
fn gamescope_args_plain() {
    let d = display("card0-DP-2", "1920x1080", 1920, 1080);
    let args = build_gamescope_args(&d, &plain_caps(), &Vec::new());
    assert_eq!(
        args,
        vec!["-W", "1920", "-H", "1080", "-r", "60", "--prefer-output", "DP-2", "--mangoapp", "-f", "-e"]
    );
}

#[test]
fn output_name_strips_card_prefix() {
    assert_eq!(output_name("card1-HDMI-A-1"), "HDMI-A-1");
    assert_eq!(output_name("eDP-1"), "1");
    assert_eq!(output_name("nodash"), "nodash");
}

#[test]
fn safe_args_use_fixed_rate() {
    let d = display("card1-DP-1", "2560x1440", 2560, 1440);
    let args = build_safe_args(&d);
    assert_eq!(args, vec!["-W", "2560", "-H", "1440", "-r", "120", "-f", "-e"]);
}

#[test]
fn fallback_args_are_fixed() {
    assert_eq!(
        build_fallback_args(),
        vec!["-W", "1920", "-H", "1080", "-r", "60", "-f", "-e", "--"]
    );
}

#[test]
fn nested_args_defaults() {
    let args = build_nested_args(None, None, &Vec::new()).expect("defaults must build");
    assert_eq!(
        args,
        vec![
            "-W", "1920", "-H", "1080", "-r", "60", "--nested-width", "1920", "--nested-height",
            "1080", "--nested-refresh", "60", "-e", "--mangoapp",
        ]
    );
}

#[test]
fn nested_args_with_overrides() {
    let extra = vec!["--foo".to_string()];
    let args = build_nested_args(Some("2560x1440"), Some(120), &extra).expect("must build");
    assert_eq!(
        args,
        vec![
            "-W", "2560", "-H", "1440", "-r", "120", "--nested-width", "2560", "--nested-height",
            "1440", "--nested-refresh", "120", "-e", "--mangoapp", "--foo",
        ]
    );
}

#[test]
fn nested_args_bad_resolution_is_an_error() {
    assert_eq!(
        build_nested_args(Some("garbage"), None, &Vec::new()),
        Err(ResolutionError::Format)
    );
}

#[test]
fn sunshine_fallbacks_fill_missing_values() {
    let (res, rate) = sunshine_fallbacks(None, None, Some("2560"), Some("1440"), Some("90"));
    assert_eq!(res, Some("2560x1440".to_string()));
    assert_eq!(rate, Some(90));
}

#[test]
fn sunshine_fallbacks_keep_explicit_values() {
    let (res, rate) = sunshine_fallbacks(
        Some("1920x1080".to_string()),
        Some(60),
        Some("2560"),
        Some("1440"),
        Some("90"),
    );
    assert_eq!(res, Some("1920x1080".to_string()));
    assert_eq!(rate, Some(60));
}

#[test]
fn sunshine_fallbacks_need_both_dimensions_and_numeric_fps() {
    let (res, rate) = sunshine_fallbacks(None, None, Some("2560"), None, Some("ninety"));
    assert_eq!(res, None);
    assert_eq!(rate, None);
}

#[test]
fn launcher_labels_and_menu() {
    let ds = vec![
        display("card1-HDMI-A-1", "3840x2160", 3840, 2160),
        display("card1-DP-1", "2560x1440", 2560, 1440),
    ];
    assert_eq!(launcher_label(&ds[0]), "card1-HDMI-A-1 - 3840x2160");
    assert_eq!(
        launcher_menu(&ds),
        "card1-HDMI-A-1 - 3840x2160\ncard1-DP-1 - 2560x1440"
    );
    assert_eq!(launcher_menu(&Vec::new()), "");
}

#[test]
fn match_selection_finds_by_name() {
    let ds = vec![
        display("card1-HDMI-A-1", "3840x2160", 3840, 2160),
        display("card1-DP-1", "2560x1440", 2560, 1440),
    ];
    assert_eq!(match_selection(&ds, "card1-DP-1 - 2560x1440"), Some(1));
    assert_eq!(match_selection(&ds, "card1-HDMI-A-1"), Some(0));
    assert_eq!(match_selection(&ds, "card9-DVI-1 - 1024x768"), None);
}

#[test]
fn menu_index_selects_or_falls_back() {
    assert_eq!(menu_index(1, 3), 0);
    assert_eq!(menu_index(3, 3), 2);
    assert_eq!(menu_index(0, 3), 0);
    assert_eq!(menu_index(4, 3), 0);
}

#[test]
fn tui_label_formats_entry() {
    let d = display("card1-DP-1", "2560x1440", 2560, 1440);
    assert_eq!(tui_label(&d), "card1-DP-1 (2560x1440)");
}

#[test]
fn capability_lines_exact_text() {
    assert_eq!(
        capability_lines(&full_caps()),
        vec![
            "✓ VRR/Adaptive Sync supported",
            "✓ HDR supported",
            "✓ 10-bit color depth supported",
            "✓ Maximum refresh rate: 144Hz",
        ]
    );
    assert_eq!(
        capability_lines(&plain_caps()),
        vec![
            "✗ VRR/Adaptive Sync not detected",
            "✗ HDR not detected",
            "✓ 8-bit color depth (standard)",
            "✓ Maximum refresh rate: 60Hz",
        ]
    );
}

#[test]
fn centered_rect_is_centered() {
    let area = Rect { x: 0, y: 0, width: 100, height: 50 };
    let c = centered_rect(60, 60, area);
    assert_eq!(c.width, 60);
    assert_eq!(c.height, 30);
    assert_eq!(c.x, 20);
    assert_eq!(c.y, 10);
}

#[test]
fn centered_rect_respects_offset() {
    let area = Rect { x: 10, y: 4, width: 81, height: 41 };
    let c = centered_rect(50, 50, area);
    assert_eq!(c.width, 40);
    assert_eq!(c.height, 20);
    assert_eq!(c.x, 10 + (81 - 40) / 2);
    assert_eq!(c.y, 4 + (41 - 20) / 2);
}
