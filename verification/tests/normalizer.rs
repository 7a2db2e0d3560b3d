//! The input event normalizer: touch records and mouse state become drag
//! events.

use touch_stick::{
    send_drag_events_from_mouse, send_drag_events_from_touch, DragEvent, IVec2, MouseButton,
    MouseButtonRecord, TouchPhase, TouchRecord, MOUSE_POINTER_ID,
};

fn vec2(x: i64, y: i64) -> IVec2 {
    IVec2 { x, y }
}

#[test]
fn touch_phases_map_one_to_one() {
    let touches = vec![
        TouchRecord { id: 11, phase: TouchPhase::Started, position: vec2(1, 2) },
        TouchRecord { id: 11, phase: TouchPhase::Moved, position: vec2(3, 4) },
        TouchRecord { id: 11, phase: TouchPhase::Ended, position: vec2(3, 4) },
        TouchRecord { id: 12, phase: TouchPhase::Canceled, position: vec2(9, 9) },
    ];
    let out = send_drag_events_from_touch(&touches);
    assert_eq!(out.len(), 4);
    assert_eq!(out[0], DragEvent::Start { id: 11, position: vec2(1, 2) });
    assert_eq!(out[1], DragEvent::Drag { id: 11, position: vec2(3, 4) });
    assert_eq!(out[2], DragEvent::End { id: 11 });
    assert_eq!(out[3], DragEvent::End { id: 12 });
}

#[test]
fn mouse_press_starts_at_cursor() {
    let out = send_drag_events_from_mouse(
        &vec![MouseButtonRecord { button: MouseButton::Left, pressed: true }],
        true,
        Some(vec2(40, 50)),
    );
    // The press transition starts a drag at the cursor, and the held button
    // also reports the cursor as a move this tick.
    assert_eq!(out.len(), 2);
    assert_eq!(out[0], DragEvent::Start { id: MOUSE_POINTER_ID, position: vec2(40, 50) });
    assert_eq!(out[1], DragEvent::Drag { id: MOUSE_POINTER_ID, position: vec2(40, 50) });
}

#[test]
fn mouse_release_ends_the_drag() {
    let out = send_drag_events_from_mouse(
        &vec![MouseButtonRecord { button: MouseButton::Left, pressed: false }],
        false,
        Some(vec2(40, 50)),
    );
    assert_eq!(out, vec![DragEvent::End { id: MOUSE_POINTER_ID }]);
}

#[test]
fn held_button_without_cursor_stalls_silently() {
    // The button is held but the cursor left the window: no move is emitted
    // and the drag is not ended.
    let out = send_drag_events_from_mouse(&vec![], true, None);
    assert!(out.is_empty());
}

#[test]
fn held_button_with_cursor_moves_every_tick() {
    let out = send_drag_events_from_mouse(&vec![], true, Some(vec2(7, 8)));
    assert_eq!(out, vec![DragEvent::Drag { id: MOUSE_POINTER_ID, position: vec2(7, 8) }]);
}

#[test]
fn press_with_unknown_cursor_starts_at_origin() {
    let out = send_drag_events_from_mouse(
        &vec![MouseButtonRecord { button: MouseButton::Left, pressed: true }],
        false,
        None,
    );
    assert_eq!(out, vec![DragEvent::Start { id: MOUSE_POINTER_ID, position: vec2(0, 0) }]);
}

#[test]
fn other_buttons_are_ignored() {
    let out = send_drag_events_from_mouse(
        &vec![
            MouseButtonRecord { button: MouseButton::Right, pressed: true },
            MouseButtonRecord { button: MouseButton::Middle, pressed: false },
            MouseButtonRecord { button: MouseButton::Other, pressed: true },
        ],
        false,
        Some(vec2(1, 1)),
    );
    assert!(out.is_empty());
}
