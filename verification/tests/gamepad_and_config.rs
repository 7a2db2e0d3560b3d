//! The gamepad axis bridge, stick construction, configuration round trips,
//! replay determinism, and the knob placement math.

use touch_stick::{
    connect_gamepad, knob_offset, knob_position, map_input_zones_from_ui_nodes, send_axis_events,
    stick_anchor, update_stick_from_drag_events, DragEvent, GamepadAxisKind, GamepadConnection,
    IVec2, Rect, StickConfig, StickId, TouchStick, TouchStickGamepadMapping, TouchStickType,
    POS_LIMIT, SCALE, TOUCH_GAMEPAD_ID,
};

fn vec2(x: i64, y: i64) -> IVec2 {
    IVec2 { x, y }
}

#[test]
fn connection_fires_on_presence_edges_only() {
    assert_eq!(connect_gamepad(false, true), Some(GamepadConnection::Connected));
    assert_eq!(connect_gamepad(true, false), Some(GamepadConnection::Disconnected));
    assert_eq!(connect_gamepad(false, false), None);
    assert_eq!(connect_gamepad(true, true), None);
}

#[test]
fn axis_events_report_both_components_per_stick() {
    let mut a = TouchStick::new(StickId(1));
    a.value = vec2(2500, -5000);
    let mut b = TouchStick::new(StickId(2));
    b.value = vec2(-SCALE, SCALE);
    let out = send_axis_events(&vec![
        (a, TouchStickGamepadMapping::left_stick()),
        (b, TouchStickGamepadMapping::right_stick()),
    ]);
    assert_eq!(out.len(), 4);
    assert_eq!(out[0].gamepad_id, TOUCH_GAMEPAD_ID);
    assert_eq!(out[0].axis, GamepadAxisKind::LeftStickX);
    assert_eq!(out[0].value, 2500);
    assert_eq!(out[1].axis, GamepadAxisKind::LeftStickY);
    assert_eq!(out[1].value, -5000);
    assert_eq!(out[2].axis, GamepadAxisKind::RightStickX);
    assert_eq!(out[2].value, -SCALE);
    assert_eq!(out[3].axis, GamepadAxisKind::RightStickY);
    assert_eq!(out[3].value, SCALE);
}

#[test]
fn new_stick_has_documented_defaults() {
    let s = TouchStick::new(StickId(9));
    assert_eq!(s.id, StickId(9));
    assert_eq!(s.drag_id, None);
    assert_eq!(s.dead_zone, 0);
    assert_eq!(s.radius, 75);
    assert_eq!(s.stick_type, TouchStickType::Floating);
    assert_eq!(s.value, vec2(0, 0));
    // Until layout arrives the stick can be engaged anywhere.
    assert_eq!(s.interactable_zone.min, vec2(-POS_LIMIT, -POS_LIMIT));
    assert_eq!(s.interactable_zone.max, vec2(POS_LIMIT, POS_LIMIT));

    let d = TouchStick::default();
    assert_eq!(d.id, StickId(0));
    let f = TouchStick::from(StickId(4));
    assert_eq!(f.id, StickId(4));
}

#[test]
fn config_round_trips_exactly() {
    let config = StickConfig {
        id: StickId(42),
        stick_type: TouchStickType::Dynamic,
        dead_zone: 1500,
        radius: 60,
    };
    let s = TouchStick::from_config(config);
    assert_eq!(s.config(), config);
    assert_eq!(s.drag_id, None);
    assert_eq!(s.value, vec2(0, 0));
}

#[test]
fn restored_stick_replays_identical_value_trace() {
    // Two sticks sharing a configuration (identities differ) and the same
    // zone see the same events and go through the same values.
    let config = StickConfig {
        id: StickId(1),
        stick_type: TouchStickType::Dynamic,
        dead_zone: 500,
        radius: 75,
    };
    let mut original = TouchStick::from_config(config);
    let mut restored = TouchStick::from_config(StickConfig { id: StickId(2), ..config });
    let zone = Rect::from_center_size(vec2(0, 0), vec2(150, 150));
    original.interactable_zone = zone;
    restored.interactable_zone = zone;

    let ticks = vec![
        vec![DragEvent::Start { id: 3, position: vec2(10, -5) }],
        vec![DragEvent::Drag { id: 3, position: vec2(90, 40) }],
        vec![DragEvent::Drag { id: 3, position: vec2(-200, 7) }],
        vec![DragEvent::End { id: 3 }],
    ];
    let mut trace_a = Vec::new();
    let mut trace_b = Vec::new();
    for tick in &ticks {
        update_stick_from_drag_events(&mut original, tick);
        trace_a.push(original.value);
        update_stick_from_drag_events(&mut restored, tick);
        trace_b.push(restored.value);
    }
    assert_eq!(trace_a, trace_b);
}

#[test]
fn zones_are_refreshed_from_layout_nodes() {
    let mut sticks = vec![TouchStick::new(StickId(1)), TouchStick::new(StickId(2))];
    let nodes = vec![(vec2(100, 200), vec2(150, 150)), (vec2(-300, 40), vec2(80, 60))];
    map_input_zones_from_ui_nodes(&mut sticks, &nodes);
    assert_eq!(sticks[0].interactable_zone.min, vec2(25, 125));
    assert_eq!(sticks[0].interactable_zone.max, vec2(175, 275));
    assert_eq!(sticks[1].interactable_zone.min, vec2(-340, 10));
    assert_eq!(sticks[1].interactable_zone.max, vec2(-260, 70));
    // Nothing else changed.
    assert_eq!(sticks[0].id, StickId(1));
    assert_eq!(sticks[1].radius, 75);
}

#[test]
fn rect_contains_is_inclusive() {
    let r = Rect::from_center_size(vec2(0, 0), vec2(150, 150));
    assert!(r.contains(vec2(0, 0)));
    assert!(r.contains(vec2(75, -75)));
    assert!(!r.contains(vec2(76, 0)));
    assert!(!r.contains(vec2(0, -76)));
}

#[test]
fn knob_math_scales_and_flips() {
    // Half deflection right and up, knob travel radius 80: the knob moves 40
    // right and, since output y-up becomes screen y-down, 40 up on screen.
    let offset = knob_offset(vec2(SCALE / 2, SCALE / 2), 80);
    assert_eq!(offset, vec2(40, -40));

    let mut s = TouchStick::new(StickId(1));
    s.stick_type = TouchStickType::Fixed;
    s.value = vec2(-SCALE, 0);
    let p = knob_position(&s, vec2(500, 500), 80);
    assert_eq!(p, vec2(420, 500));
}

#[test]
fn anchor_follows_behavior() {
    let center = vec2(100, 100);
    let mut s = TouchStick::new(StickId(1));

    s.stick_type = TouchStickType::Fixed;
    assert_eq!(stick_anchor(&s, center), center);

    s.stick_type = TouchStickType::Floating;
    assert_eq!(stick_anchor(&s, center), center);
    s.drag_id = Some(4);
    s.drag_start = vec2(30, 40);
    assert_eq!(stick_anchor(&s, center), vec2(30, 40));

    s.stick_type = TouchStickType::Dynamic;
    s.base_position = vec2(7, 8);
    assert_eq!(stick_anchor(&s, center), vec2(7, 8));
}

#[test]
fn square_roots_round_the_right_way() {
    assert_eq!(touch_stick::fixed::isqrt_u128(0), 0);
    assert_eq!(touch_stick::fixed::isqrt_u128(1), 1);
    assert_eq!(touch_stick::fixed::isqrt_u128(200_000_000), 14142);
    assert_eq!(touch_stick::fixed::sqrt_ceil_u128(200_000_000), 14143);
    assert_eq!(touch_stick::fixed::sqrt_ceil_u128(22_500), 150);
    assert_eq!(touch_stick::fixed::isqrt_u128(u128::MAX), u64::MAX as u128);
}
