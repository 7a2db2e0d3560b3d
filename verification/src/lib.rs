//! Virtual touch-screen analog joysticks.
//!
//! A stick converts a stream of pointer drag events (touch contacts or the
//! mouse) into a normalized two-dimensional output value of magnitude at most
//! one, emits a press/drag/release event stream, and can optionally be mapped
//! onto emulated gamepad axes.
//!
//! All geometry is carried out in fixed-point arithmetic: positions are plain
//! integer input-space coordinates (y grows downward) and output values are
//! scaled by [`fixed::SCALE`] (y grows upward).

pub mod engine;
pub mod events;
pub mod fixed;
pub mod gamepad;
pub mod geom;
pub mod input;
pub mod laws;
pub mod stick;
pub mod ui;

pub use engine::process_drag_event;
pub use engine::update_stick_from_drag_events;
pub use engine::update_sticks_from_drag_events;
pub use events::DragEvent;
pub use events::TouchStickEvent;
pub use events::TouchStickEventType;
pub use fixed::POS_LIMIT;
pub use fixed::SCALE;
pub use gamepad::connect_gamepad;
pub use gamepad::send_axis_events;
pub use gamepad::GamepadAxisEvent;
pub use gamepad::GamepadAxisKind;
pub use gamepad::GamepadConnection;
pub use gamepad::TouchStickGamepadMapping;
pub use gamepad::TOUCH_GAMEPAD_ID;
pub use geom::IVec2;
pub use geom::Rect;
pub use input::send_drag_events_from_mouse;
pub use input::send_drag_events_from_touch;
pub use input::MouseButton;
pub use input::MouseButtonRecord;
pub use input::TouchPhase;
pub use input::TouchRecord;
pub use input::MOUSE_POINTER_ID;
pub use stick::StickConfig;
pub use stick::StickId;
pub use stick::TouchStick;
pub use stick::TouchStickType;
pub use ui::knob_offset;
pub use ui::knob_position;
pub use ui::map_input_zones_from_ui_nodes;
pub use ui::stick_anchor;
