//! The gamepad axis bridge: sticks pretend to be a regular gamepad.
//!
//! Every mapped stick's value is reported on two axis channels each tick, and
//! a synthetic connect/disconnect notification fires on the transition
//! between "no mapped stick" and "some mapped stick".

use crate::stick::TouchStick;
use vstd::prelude::*;

verus! {

/// Identifier of the emulated gamepad. Chosen arbitrarily, large enough to
/// make a collision with a real device id unlikely, and below `u32::MAX` so
/// that 32-bit platforms can carry it.
pub const TOUCH_GAMEPAD_ID: u64 = 3407632091;

/// An axis channel of the emulated gamepad.
#[derive(Clone, Copy, Debug, PartialEq, Eq, Structural)]
pub enum GamepadAxisKind {
    /// Horizontal axis of the left stick.
    LeftStickX,
    /// Vertical axis of the left stick.
    LeftStickY,
    /// Z axis of the left stick.
    LeftZ,
    /// Horizontal axis of the right stick.
    RightStickX,
    /// Vertical axis of the right stick.
    RightStickY,
    /// Z axis of the right stick.
    RightZ,
}

/// Mapping of a stick onto two gamepad axis channels: the first carries the
/// value's x component, the second its y component.
#[derive(Clone, Copy, Debug, PartialEq, Eq, Structural)]
pub struct TouchStickGamepadMapping(pub GamepadAxisKind, pub GamepadAxisKind);

impl TouchStickGamepadMapping {
    /// The conventional left-stick mapping.
    pub fn left_stick() -> (m: TouchStickGamepadMapping)
        ensures
            m == TouchStickGamepadMapping(GamepadAxisKind::LeftStickX, GamepadAxisKind::LeftStickY),
    {
        TouchStickGamepadMapping(GamepadAxisKind::LeftStickX, GamepadAxisKind::LeftStickY)
    }

    /// The conventional right-stick mapping.
    pub fn right_stick() -> (m: TouchStickGamepadMapping)
        ensures
            m == TouchStickGamepadMapping(
                GamepadAxisKind::RightStickX,
                GamepadAxisKind::RightStickY,
            ),
    {
        TouchStickGamepadMapping(GamepadAxisKind::RightStickX, GamepadAxisKind::RightStickY)
    }
}

/// An axis-changed notification: one channel of the emulated gamepad took a
/// new value (scaled by `SCALE`, as stick values are).
#[derive(Clone, Copy, Debug, PartialEq, Eq, Structural)]
pub struct GamepadAxisEvent {
    /// The emulated device the change belongs to.
    pub gamepad_id: u64,
    /// The channel that changed.
    pub axis: GamepadAxisKind,
    /// The channel's new value.
    pub value: i64,
}

/// A connection-changed notification for the emulated gamepad.
#[derive(Clone, Copy, Debug, PartialEq, Eq, Structural)]
pub enum GamepadConnection {
    /// The emulated gamepad appeared.
    Connected,
    /// The emulated gamepad went away.
    Disconnected,
}

/// The notification the presence edge produces: connected on the transition
/// from no mapped stick to some, disconnected on the reverse, nothing while
/// presence is unchanged.
pub open spec fn spec_connection_change(was_connected: bool, connected: bool) -> Option<
    GamepadConnection,
> {
    if was_connected != connected {
        if connected {
            Some(GamepadConnection::Connected)
        } else {
            Some(GamepadConnection::Disconnected)
        }
    } else {
        None
    }
}

/// Tracks the presence of mapped sticks: given whether the emulated gamepad
/// was connected and whether any mapped stick exists now, returns the
/// notification to send, if any. The caller records `connected` as the new
/// presence state.
pub fn connect_gamepad(was_connected: bool, connected: bool) -> (out: Option<GamepadConnection>)
    ensures
        out == spec_connection_change(was_connected, connected),
{
    if was_connected != connected {
        if connected {
            Some(GamepadConnection::Connected)
        } else {
            Some(GamepadConnection::Disconnected)
        }
    } else {
        None
    }
}

/// The two axis events one mapped stick produces: its x channel with the
/// value's x component, then its y channel with the y component.
pub open spec fn spec_axis_events(s: TouchStick, m: TouchStickGamepadMapping) -> Seq<
    GamepadAxisEvent,
> {
    seq![
        GamepadAxisEvent { gamepad_id: TOUCH_GAMEPAD_ID, axis: m.0, value: s.value.x },
        GamepadAxisEvent { gamepad_id: TOUCH_GAMEPAD_ID, axis: m.1, value: s.value.y },
    ]
}

/// Reads every mapped stick's value and reports it on that stick's two axis
/// channels, two events per stick, in roster order.
pub fn send_axis_events(sticks: &Vec<(TouchStick, TouchStickGamepadMapping)>) -> (out: Vec<
    GamepadAxisEvent,
>)
    ensures
        out@.len() == 2 * sticks@.len(),
        forall|i: int|
            0 <= i < sticks@.len() ==> {
                let p = #[trigger] sticks@[i];
                &&& out@[2 * i] == (GamepadAxisEvent {
                    gamepad_id: TOUCH_GAMEPAD_ID,
                    axis: p.1.0,
                    value: p.0.value.x,
                })
                &&& out@[2 * i + 1] == (GamepadAxisEvent {
                    gamepad_id: TOUCH_GAMEPAD_ID,
                    axis: p.1.1,
                    value: p.0.value.y,
                })
            },
{
    let mut out: Vec<GamepadAxisEvent> = Vec::new();
    let mut i: usize = 0;
    while i < sticks.len()
        invariant
            i <= sticks@.len(),
            out@.len() == 2 * i,
            forall|j: int|
                0 <= j < i ==> {
                    let p = #[trigger] sticks@[j];
                    &&& out@[2 * j] == (GamepadAxisEvent {
                        gamepad_id: TOUCH_GAMEPAD_ID,
                        axis: p.1.0,
                        value: p.0.value.x,
                    })
                    &&& out@[2 * j + 1] == (GamepadAxisEvent {
                        gamepad_id: TOUCH_GAMEPAD_ID,
                        axis: p.1.1,
                        value: p.0.value.y,
                    })
                },
        decreases sticks@.len() - i,
    {
        let (stick, mapping) = sticks[i];
        out.push(
            GamepadAxisEvent { gamepad_id: TOUCH_GAMEPAD_ID, axis: mapping.0, value: stick.value.x },
        );
        out.push(
            GamepadAxisEvent { gamepad_id: TOUCH_GAMEPAD_ID, axis: mapping.1, value: stick.value.y },
        );
        i = i + 1;
    }
    out
}

} // verus!
