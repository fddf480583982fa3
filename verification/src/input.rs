//! Translation of raw input events into navigation events: the
//! whitelisted subset of Linux input codes a controller may send, and
//! the recognized keyboard keys with their letter aliases.

use vstd::prelude::*;
use crate::selection::NavigationEvent;
use crate::text::{contains_at, str_starts_with};

verus! {

/// Linux input event type for digital buttons.
pub const EV_KEY: u16 = 1;

/// Linux input event type for absolute axes.
pub const EV_ABS: u16 = 3;

/// South face button (`A`/Cross), one of the confirm buttons.
pub const BTN_SOUTH: u16 = 304;

/// East face button (`B`/Circle), the cancel button.
pub const BTN_EAST: u16 = 305;

/// West face button (`X`/Square), the other confirm button.
pub const BTN_WEST: u16 = 308;

/// Digital directional-pad up.
pub const BTN_DPAD_UP: u16 = 544;

/// Digital directional-pad down.
pub const BTN_DPAD_DOWN: u16 = 545;

/// Vertical hat axis: negative is up, positive is down.
pub const ABS_HAT0Y: u16 = 17;

/// The controller mapping: digital pad or vertical hat for movement,
/// south/west face buttons to confirm, east to cancel.  Only button
/// presses (value becoming 1) are forwarded; releases and autorepeats
/// are ignored, as is the hat returning to rest (value 0).
pub open spec fn spec_map_controller(event_type: u16, code: u16, value: i32) -> Option<
    NavigationEvent,
> {
    if event_type == EV_KEY && value == 1 {
        if code == BTN_DPAD_UP {
            Some(NavigationEvent::MoveUp)
        } else if code == BTN_DPAD_DOWN {
            Some(NavigationEvent::MoveDown)
        } else if code == BTN_SOUTH || code == BTN_WEST {
            Some(NavigationEvent::Confirm)
        } else if code == BTN_EAST {
            Some(NavigationEvent::Cancel)
        } else {
            None
        }
    } else if event_type == EV_ABS && code == ABS_HAT0Y {
        if value < 0 {
            Some(NavigationEvent::MoveUp)
        } else if value > 0 {
            Some(NavigationEvent::MoveDown)
        } else {
            None
        }
    } else {
        None
    }
}

/// Translate one raw controller event, given its type, code and value.
pub fn map_controller_event(event_type: u16, code: u16, value: i32) -> (r: Option<NavigationEvent>)
    ensures
        r == spec_map_controller(event_type, code, value),
{
    if event_type == EV_KEY && value == 1 {
        if code == BTN_DPAD_UP {
            Some(NavigationEvent::MoveUp)
        } else if code == BTN_DPAD_DOWN {
            Some(NavigationEvent::MoveDown)
        } else if code == BTN_SOUTH || code == BTN_WEST {
            Some(NavigationEvent::Confirm)
        } else if code == BTN_EAST {
            Some(NavigationEvent::Cancel)
        } else {
            None
        }
    } else if event_type == EV_ABS && code == ABS_HAT0Y {
        if value < 0 {
            Some(NavigationEvent::MoveUp)
        } else if value > 0 {
            Some(NavigationEvent::MoveDown)
        } else {
            None
        }
    } else {
        None
    }
}

/// A discrete key press, stripped of everything but what the selection
/// loop distinguishes.
#[derive(Debug, Clone, Copy, PartialEq, Eq, Structural)]
pub enum KeyInput {
    ArrowUp,
    ArrowDown,
    Enter,
    Escape,
    Letter(char),
    Other,
}

/// The keyboard mapping: arrows with `k`/`j` aliases for movement,
/// enter or space to confirm, escape or `q` to cancel.
pub open spec fn spec_map_key(key: KeyInput) -> Option<NavigationEvent> {
    match key {
        KeyInput::ArrowUp => Some(NavigationEvent::MoveUp),
        KeyInput::ArrowDown => Some(NavigationEvent::MoveDown),
        KeyInput::Enter => Some(NavigationEvent::Confirm),
        KeyInput::Escape => Some(NavigationEvent::Cancel),
        KeyInput::Letter(c) => if c == 'k' {
            Some(NavigationEvent::MoveUp)
        } else if c == 'j' {
            Some(NavigationEvent::MoveDown)
        } else if c == ' ' {
            Some(NavigationEvent::Confirm)
        } else if c == 'q' {
            Some(NavigationEvent::Cancel)
        } else {
            None
        },
        KeyInput::Other => None,
    }
}

/// Translate one key press into a navigation event.
pub fn map_key_event(key: KeyInput) -> (r: Option<NavigationEvent>)
    ensures
        r == spec_map_key(key),
{
    match key {
        KeyInput::ArrowUp => Some(NavigationEvent::MoveUp),
        KeyInput::ArrowDown => Some(NavigationEvent::MoveDown),
        KeyInput::Enter => Some(NavigationEvent::Confirm),
        KeyInput::Escape => Some(NavigationEvent::Cancel),
        KeyInput::Letter(c) => {
            if c == 'k' {
                Some(NavigationEvent::MoveUp)
            } else if c == 'j' {
                Some(NavigationEvent::MoveDown)
            } else if c == ' ' {
                Some(NavigationEvent::Confirm)
            } else if c == 'q' {
                Some(NavigationEvent::Cancel)
            } else {
                None
            }
        },
        KeyInput::Other => None,
    }
}

/// An input-device node that can deliver events (`event*`).
pub fn is_event_device_name(name: &str) -> (r: bool)
    ensures
        r == contains_at(name@, "event"@, 0),
{
    str_starts_with(name, "event")
}

/// A device with either canonical face button is taken for a gamepad.
pub fn is_gamepad_device(has_south: bool, has_east: bool) -> (r: bool)
    ensures
        r == (has_south || has_east),
{
    has_south || has_east
}

} // verus!
