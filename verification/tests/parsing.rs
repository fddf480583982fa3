use console_mode::display::{connector_candidate, connector_display, parse_resolution, ResolutionError};
use console_mode::text::{parse_u32, str_contains, str_eq, trim, u32_to_string};

#[test]
fn parse_resolution_plain() {
    assert_eq!(parse_resolution("1920x1080"), Ok((1920, 1080)));
    assert_eq!(parse_resolution("3840x2160"), Ok((3840, 2160)));
}

#[test]
fn parse_resolution_trims_whitespace() {
    assert_eq!(parse_resolution("  2560x1440\n"), Ok((2560, 1440)));
    assert_eq!(parse_resolution("\u{a0}1920x1080\u{3000}"), Ok((1920, 1080)));
}

#[test]
fn parse_resolution_format_errors() {
    assert_eq!(parse_resolution("1920"), Err(ResolutionError::Format));
    assert_eq!(parse_resolution("1x2x3"), Err(ResolutionError::Format));
    assert_eq!(parse_resolution(""), Err(ResolutionError::Format));
}

#[test]
fn parse_resolution_width_errors() {
    assert_eq!(parse_resolution("x1080"), Err(ResolutionError::Width));
    assert_eq!(parse_resolution("ax1080"), Err(ResolutionError::Width));
    assert_eq!(parse_resolution("99999999999x1080"), Err(ResolutionError::Width));
}

#[test]
fn parse_resolution_height_errors() {
    assert_eq!(parse_resolution("1920x"), Err(ResolutionError::Height));
    assert_eq!(parse_resolution("1920xabc"), Err(ResolutionError::Height));
    assert_eq!(parse_resolution("1920x 1080"), Err(ResolutionError::Height));
}

#[test]
fn error_messages_match() {
    assert_eq!(ResolutionError::Format.message(), "Invalid resolution format");
    assert_eq!(ResolutionError::Width.message(), "Invalid width in resolution");
    assert_eq!(ResolutionError::Height.message(), "Invalid height in resolution");
}

#[test]
fn parse_u32_basics() {
    assert_eq!(parse_u32("0"), Some(0));
    assert_eq!(parse_u32("144"), Some(144));
    assert_eq!(parse_u32("4294967295"), Some(u32::MAX));
    assert_eq!(parse_u32("4294967296"), None);
    assert_eq!(parse_u32(""), None);
    assert_eq!(parse_u32("12a"), None);
    assert_eq!(parse_u32("+12"), None);
}

#[test]
fn resolution_roundtrip() {
    for (w, h) in [(0u32, 0u32), (1, 1), (1920, 1080), (3840, 2160), (u32::MAX, u32::MAX)] {
        let formatted = format!("{}x{}", u32_to_string(w), u32_to_string(h));
        assert_eq!(parse_resolution(&formatted), Ok((w, h)));
    }
}

#[test]
fn u32_to_string_formats_decimal() {
    assert_eq!(u32_to_string(0), "0");
    assert_eq!(u32_to_string(7), "7");
    assert_eq!(u32_to_string(1920), "1920");
    assert_eq!(u32_to_string(4294967295), "4294967295");
}

#[test]
fn text_helpers() {
    assert!(str_contains("decoded EDID text", "EDID"));
    assert!(!str_contains("decoded EDID text", "HDMI"));
    assert!(str_eq("connected", "connected"));
    assert!(!str_eq("connected", "disconnected"));
    assert_eq!(trim("  connected\n"), "connected");
    assert_eq!(trim("\t\n "), "");
}

#[test]
fn connector_candidate_names() {
    assert!(connector_candidate("card1-HDMI-A-1"));
    assert!(connector_candidate("card0-eDP-1"));
    assert!(!connector_candidate("card0"));
    assert!(!connector_candidate("renderD128"));
    assert!(!connector_candidate("version"));
}

#[test]
fn connector_display_accepts_connected_entry() {
    let d = connector_display(
        "card1-HDMI-A-1",
        "/sys/class/drm/card1-HDMI-A-1",
        "connected\n",
        "3840x2160\n1920x1080\n",
    )
    .expect("entry must be accepted");
    assert_eq!(d.connector_name, "card1-HDMI-A-1");
    assert_eq!(d.connector_path, "/sys/class/drm/card1-HDMI-A-1");
    assert_eq!(d.resolution, "3840x2160");
    assert_eq!(d.width, 3840);
    assert_eq!(d.height, 2160);
}

#[test]
fn connector_display_takes_first_mode_line() {
    let d = connector_display("card1-DP-1", "p", "connected", "1280x720\n3840x2160\n").unwrap();
    assert_eq!(d.width, 1280);
    assert_eq!(d.height, 720);
}

#[test]
fn connector_display_skips_disconnected() {
    assert!(connector_display("card1-DP-1", "p", "disconnected\n", "1920x1080\n").is_none());
}

#[test]
fn connector_display_skips_bad_name() {
    assert!(connector_display("renderD128", "p", "connected\n", "1920x1080\n").is_none());
}

#[test]
fn connector_display_skips_malformed_modes() {
    assert!(connector_display("card1-DP-1", "p", "connected\n", "\n1920x1080\n").is_none());
    assert!(connector_display("card1-DP-1", "p", "connected\n", "").is_none());
    assert!(connector_display("card1-DP-1", "p", "connected\n", "notaresolution\n").is_none());
}

#[test]
fn connector_display_tolerates_carriage_return() {
    let d = connector_display("card1-DP-1", "p", "connected", "1920x1080\r\n").unwrap();
    assert_eq!(d.resolution, "1920x1080");
    assert_eq!(d.width, 1920);
}
