use console_mode::input::{
    is_event_device_name, is_gamepad_device, map_controller_event, map_key_event, KeyInput,
    ABS_HAT0Y, BTN_DPAD_DOWN, BTN_DPAD_UP, BTN_EAST, BTN_SOUTH, BTN_WEST, EV_ABS, EV_KEY,
};
use console_mode::selection::NavigationEvent;

#[test]
fn dpad_buttons_move() {
    assert_eq!(
        map_controller_event(EV_KEY, BTN_DPAD_UP, 1),
        Some(NavigationEvent::MoveUp)
    );
    assert_eq!(
        map_controller_event(EV_KEY, BTN_DPAD_DOWN, 1),
        Some(NavigationEvent::MoveDown)
    );
}

#[test]
fn face_buttons_confirm_and_cancel() {
    assert_eq!(
        map_controller_event(EV_KEY, BTN_SOUTH, 1),
        Some(NavigationEvent::Confirm)
    );
    assert_eq!(
        map_controller_event(EV_KEY, BTN_WEST, 1),
        Some(NavigationEvent::Confirm)
    );
    assert_eq!(
        map_controller_event(EV_KEY, BTN_EAST, 1),
        Some(NavigationEvent::Cancel)
    );
}

#[test]
fn releases_and_repeats_are_ignored() {
    assert_eq!(map_controller_event(EV_KEY, BTN_SOUTH, 0), None);
    assert_eq!(map_controller_event(EV_KEY, BTN_SOUTH, 2), None);
    assert_eq!(map_controller_event(EV_KEY, BTN_DPAD_UP, 0), None);
}

#[test]
fn unknown_codes_are_ignored() {
    assert_eq!(map_controller_event(EV_KEY, 999, 1), None);
    assert_eq!(map_controller_event(0, BTN_SOUTH, 1), None);
}

#[test]
fn hat_axis_maps_by_sign() {
    assert_eq!(
        map_controller_event(EV_ABS, ABS_HAT0Y, -1),
        Some(NavigationEvent::MoveUp)
    );
    assert_eq!(
        map_controller_event(EV_ABS, ABS_HAT0Y, 1),
        Some(NavigationEvent::MoveDown)
    );
    assert_eq!(map_controller_event(EV_ABS, ABS_HAT0Y, 0), None);
    assert_eq!(map_controller_event(EV_ABS, 0, -1), None);
}

#[test]
fn keyboard_arrows_and_aliases() {
    assert_eq!(map_key_event(KeyInput::ArrowUp), Some(NavigationEvent::MoveUp));
    assert_eq!(map_key_event(KeyInput::ArrowDown), Some(NavigationEvent::MoveDown));
    assert_eq!(
        map_key_event(KeyInput::Letter('k')),
        Some(NavigationEvent::MoveUp)
    );
    assert_eq!(
        map_key_event(KeyInput::Letter('j')),
        Some(NavigationEvent::MoveDown)
    );
}

#[test]
fn keyboard_confirm_and_cancel() {
    assert_eq!(map_key_event(KeyInput::Enter), Some(NavigationEvent::Confirm));
    assert_eq!(
        map_key_event(KeyInput::Letter(' ')),
        Some(NavigationEvent::Confirm)
    );
    assert_eq!(map_key_event(KeyInput::Escape), Some(NavigationEvent::Cancel));
    assert_eq!(
        map_key_event(KeyInput::Letter('q')),
        Some(NavigationEvent::Cancel)
    );
}

#[test]
fn other_keys_are_ignored() {
    assert_eq!(map_key_event(KeyInput::Letter('x')), None);
    assert_eq!(map_key_event(KeyInput::Other), None);
}

#[test]
fn gamepad_device_detection() {
    assert!(is_event_device_name("event0"));
    assert!(is_event_device_name("event17"));
    assert!(!is_event_device_name("js0"));
    assert!(!is_event_device_name("mouse1"));
    assert!(is_gamepad_device(true, false));
    assert!(is_gamepad_device(false, true));
    assert!(!is_gamepad_device(false, false));
}
