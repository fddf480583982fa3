use console_mode::display::DisplayInfo;
use console_mode::selection::{NavigationEvent, SelectionSession, TuiApp};

fn display(name: &str, resolution: &str, width: u32, height: u32) -> DisplayInfo {
    DisplayInfo {
        connector_name: name.to_string(),
        connector_path: format!("/sys/class/drm/{}", name),
        resolution: resolution.to_string(),
        width,
        height,
    }
}

fn three_displays() -> Vec<DisplayInfo> {
    vec![
        display("card1-HDMI-A-1", "3840x2160", 3840, 2160),
        display("card1-DP-1", "2560x1440", 2560, 1440),
        display("card1-DP-2", "1920x1080", 1920, 1080),
    ]
}

#[test]
fn wraparound_move_down() {
    let mut app = TuiApp::new(three_displays());
    assert_eq!(app.highlight, Some(0));
    app.next();
    assert_eq!(app.highlight, Some(1));
    app.next();
    assert_eq!(app.highlight, Some(2));
    app.next();
    assert_eq!(app.highlight, Some(0));
}

#[test]
fn wraparound_move_up() {
    let mut app = TuiApp::new(three_displays());
    app.previous();
    assert_eq!(app.highlight, Some(2));
    app.previous();
    assert_eq!(app.highlight, Some(1));
    app.previous();
    assert_eq!(app.highlight, Some(0));
}

#[test]
fn single_entry_wraps_to_itself() {
    let mut app = TuiApp::new(vec![display("card0-eDP-1", "1920x1080", 1920, 1080)]);
    app.next();
    assert_eq!(app.highlight, Some(0));
    app.previous();
    assert_eq!(app.highlight, Some(0));
}

#[test]
fn empty_list_navigation_is_noop() {
    let mut app = TuiApp::new(Vec::new());
    assert_eq!(app.highlight, None);
    app.next();
    assert_eq!(app.highlight, None);
    app.previous();
    assert_eq!(app.highlight, None);
    assert!(!app.should_quit);
}

#[test]
fn empty_list_confirm_never_chooses() {
    let mut app = TuiApp::new(Vec::new());
    app.select();
    assert!(app.chosen().is_none());
    app.apply_event(NavigationEvent::Confirm);
    assert!(app.chosen().is_none());
}

#[test]
fn confirm_chooses_highlighted_output() {
    let mut app = TuiApp::new(three_displays());
    app.next();
    app.select();
    assert!(app.should_quit);
    let chosen = app.chosen().expect("a display must be chosen");
    assert_eq!(chosen.connector_name, "card1-DP-1");
    assert_eq!(chosen.resolution, "2560x1440");
}

#[test]
fn confirm_at_every_index_chooses_that_output() {
    for target in 0..3usize {
        let mut app = TuiApp::new(three_displays());
        for _ in 0..target {
            app.next();
        }
        app.select();
        let chosen = app.chosen().expect("a display must be chosen");
        assert_eq!(chosen.connector_name, three_displays()[target].connector_name);
    }
}

#[test]
fn cancel_ends_without_choice() {
    let mut app = TuiApp::new(three_displays());
    app.quit();
    assert!(app.should_quit);
    assert!(app.chosen().is_none());
}

#[test]
fn controller_applied_before_keyboard() {
    // A controller MoveDown and a keyboard MoveUp in one iteration cancel
    // out, deterministically.
    let mut app = TuiApp::new(three_displays());
    app.apply_iteration(
        Some(NavigationEvent::MoveDown),
        Some(NavigationEvent::MoveUp),
    );
    assert_eq!(app.highlight, Some(0));

    // A controller Confirm fixes the choice before the keyboard MoveDown
    // moves the highlight: the order is observable.
    let mut app = TuiApp::new(three_displays());
    app.next();
    app.apply_iteration(
        Some(NavigationEvent::Confirm),
        Some(NavigationEvent::MoveDown),
    );
    assert_eq!(app.selected, Some(1));
    assert_eq!(app.highlight, Some(2));
    assert_eq!(app.chosen().expect("chosen").connector_name, "card1-DP-1");
}

#[test]
fn session_restores_terminal_exactly_once() {
    let mut session = SelectionSession::begin(three_displays());
    assert!(session.terminal_active);
    session.step(Some(NavigationEvent::MoveDown), None);
    session.step(None, Some(NavigationEvent::Confirm));
    assert!(session.terminal_active);
    assert!(session.finish());
    assert!(!session.terminal_active);
    assert!(!session.finish());
}

#[test]
fn session_terminal_held_through_cancel() {
    let mut session = SelectionSession::begin(three_displays());
    session.step(None, Some(NavigationEvent::Cancel));
    assert!(!session.app.pending());
    assert!(session.finish());
    assert!(!session.finish());
}
