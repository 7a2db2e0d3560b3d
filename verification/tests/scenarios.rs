//! End-to-end scenarios of the drag arbitration engine.

use touch_stick::{
    update_stick_from_drag_events, update_sticks_from_drag_events, DragEvent, IVec2, Rect, StickId,
    TouchStick, TouchStickEventType, SCALE,
};

fn vec2(x: i64, y: i64) -> IVec2 {
    IVec2 { x, y }
}

/// A stick whose zone is the square of the given half-extent around (0, 0).
fn stick_with_zone(behavior: touch_stick::TouchStickType, half: i64) -> TouchStick {
    let mut s = TouchStick::new(StickId(1));
    s.stick_type = behavior;
    s.interactable_zone = Rect::from_center_size(vec2(0, 0), vec2(2 * half, 2 * half));
    s
}

#[test]
fn fixed_press_move_release() {
    // Zone centered at (0,0) with half-size (75,75), fixed behavior.
    let mut s = stick_with_zone(touch_stick::TouchStickType::Fixed, 75);

    // Start at the center: a press with value (0,0); with a zero dead zone the
    // zero value itself is already reported as a drag.
    let events = update_stick_from_drag_events(&mut s, &vec![DragEvent::Start {
        id: 7,
        position: vec2(0, 0),
    }]);
    assert_eq!(events.len(), 2);
    assert_eq!(events[0].get_type(), TouchStickEventType::Press);
    assert_eq!(events[0].value(), vec2(0, 0));
    assert_eq!(events[0].id(), StickId(1));
    assert_eq!(events[1].get_type(), TouchStickEventType::Drag);
    assert_eq!(s.drag_id, Some(7));

    // Move to (75,0): the offset equals the half-extent, so the value is a
    // full deflection right: (1.0, 0.0) in fixed-point.
    let events = update_stick_from_drag_events(&mut s, &vec![DragEvent::Drag {
        id: 7,
        position: vec2(75, 0),
    }]);
    assert_eq!(s.value, vec2(SCALE, 0));
    assert_eq!(events.len(), 1);
    assert_eq!(events[0].get_type(), TouchStickEventType::Drag);
    assert_eq!(events[0].value(), vec2(SCALE, 0));

    // End: a release with value (0,0) and a fully zeroed stick.
    let events = update_stick_from_drag_events(&mut s, &vec![DragEvent::End { id: 7 }]);
    assert_eq!(events.len(), 1);
    assert_eq!(events[0].get_type(), TouchStickEventType::Release);
    assert_eq!(events[0].value(), vec2(0, 0));
    assert_eq!(s.drag_id, None);
    assert_eq!(s.value, vec2(0, 0));
    assert_eq!(s.drag_start, vec2(0, 0));
    assert_eq!(s.drag_position, vec2(0, 0));
    assert_eq!(s.base_position, vec2(0, 0));
}

#[test]
fn dead_zone_suppresses_drag() {
    // Same zone, dead zone 0.1 (1000 in fixed-point).
    let mut s = stick_with_zone(touch_stick::TouchStickType::Fixed, 75);
    s.dead_zone = 1000;

    let events = update_stick_from_drag_events(&mut s, &vec![DragEvent::Start {
        id: 7,
        position: vec2(0, 0),
    }]);
    // Only the press: (0,0) is inside the dead zone.
    assert_eq!(events.len(), 1);
    assert_eq!(events[0].get_type(), TouchStickEventType::Press);

    // Move to (3,0): raw offset 3/75 = 0.04, inside the unit disc, so the
    // value is exactly (0.04, 0) — queryable but below the dead zone.
    let events = update_stick_from_drag_events(&mut s, &vec![DragEvent::Drag {
        id: 7,
        position: vec2(3, 0),
    }]);
    assert_eq!(s.value, vec2(400, 0));
    assert!(events.is_empty());

    // Move to (75,0): full deflection, outside the dead zone.
    let events = update_stick_from_drag_events(&mut s, &vec![DragEvent::Drag {
        id: 7,
        position: vec2(75, 0),
    }]);
    assert_eq!(events.len(), 1);
    assert_eq!(events[0].get_type(), TouchStickEventType::Drag);
    assert_eq!(events[0].value(), vec2(SCALE, 0));
}

#[test]
fn dynamic_anchor_slides() {
    // Dynamic behavior, zone half (75,75): a drag to (150,0) exceeds the
    // half-extent by 75, so the reference point slides to (75,0) and the
    // value stays clamped at full deflection.
    let mut s = stick_with_zone(touch_stick::TouchStickType::Dynamic, 75);

    update_stick_from_drag_events(&mut s, &vec![DragEvent::Start {
        id: 3,
        position: vec2(0, 0),
    }]);
    update_stick_from_drag_events(&mut s, &vec![DragEvent::Drag {
        id: 3,
        position: vec2(150, 0),
    }]);
    assert_eq!(s.drag_start, vec2(75, 0));
    assert_eq!(s.base_position, vec2(150, 0));
    assert_eq!(s.drag_position, vec2(150, 0));
    assert_eq!(s.value, vec2(SCALE, 0));
}

#[test]
fn value_is_clamped_on_diagonal() {
    // A diagonal full-throw: offset (75,75) scales to (10000,10000), whose
    // norm 14142.13… rounds up to 14143; each component becomes
    // 10000*10000/14143 = 7070, so the squared norm stays within SCALE².
    let mut s = stick_with_zone(touch_stick::TouchStickType::Fixed, 75);
    update_stick_from_drag_events(&mut s, &vec![DragEvent::Start {
        id: 1,
        position: vec2(0, 0),
    }]);
    update_stick_from_drag_events(&mut s, &vec![DragEvent::Drag {
        id: 1,
        position: vec2(75, 75),
    }]);
    assert_eq!(s.value, vec2(7070, -7070));
    let norm_sq = s.value.x * s.value.x + s.value.y * s.value.y;
    assert!(norm_sq <= SCALE * SCALE);
}

#[test]
fn input_y_down_becomes_output_y_up() {
    let mut s = stick_with_zone(touch_stick::TouchStickType::Fixed, 75);
    update_stick_from_drag_events(&mut s, &vec![DragEvent::Start {
        id: 1,
        position: vec2(0, 0),
    }]);
    // Dragging downward on screen (y grows down) deflects the stick down:
    // output y is negative.
    update_stick_from_drag_events(&mut s, &vec![DragEvent::Drag {
        id: 1,
        position: vec2(0, 75),
    }]);
    assert_eq!(s.value, vec2(0, -SCALE));
}

#[test]
fn floating_stick_measures_from_press_point() {
    // A floating stick's zero reference is wherever the pointer touched down,
    // not the zone center: pressing at (50,50) and moving 75 to the right is
    // a full deflection.
    let mut s = stick_with_zone(touch_stick::TouchStickType::Floating, 75);
    update_stick_from_drag_events(&mut s, &vec![DragEvent::Start {
        id: 1,
        position: vec2(50, 50),
    }]);
    assert_eq!(s.drag_start, vec2(50, 50));
    update_stick_from_drag_events(&mut s, &vec![DragEvent::Drag {
        id: 1,
        position: vec2(125, 50),
    }]);
    assert_eq!(s.value, vec2(SCALE, 0));
    // The reference point does not chase the pointer: it stays at the press
    // point however far the drag goes.
    update_stick_from_drag_events(&mut s, &vec![DragEvent::Drag {
        id: 1,
        position: vec2(1000, 50),
    }]);
    assert_eq!(s.drag_start, vec2(50, 50));
    assert_eq!(s.value, vec2(SCALE, 0));
}

#[test]
fn release_works_even_outside_the_zone() {
    // Moves are not reclipped to the zone, and the owning pointer can end the
    // drag wherever it is.
    let mut s = stick_with_zone(touch_stick::TouchStickType::Floating, 75);
    update_stick_from_drag_events(&mut s, &vec![DragEvent::Start {
        id: 1,
        position: vec2(0, 0),
    }]);
    update_stick_from_drag_events(&mut s, &vec![DragEvent::Drag {
        id: 1,
        position: vec2(500, -500),
    }]);
    assert!(s.value.x * s.value.x + s.value.y * s.value.y <= SCALE * SCALE);
    let events = update_stick_from_drag_events(&mut s, &vec![DragEvent::End { id: 1 }]);
    assert_eq!(events.len(), 1);
    assert_eq!(events[0].get_type(), TouchStickEventType::Release);
    assert_eq!(s.drag_id, None);
}

#[test]
fn moves_before_any_start_are_ignored() {
    let mut s = stick_with_zone(touch_stick::TouchStickType::Floating, 75);
    let events = update_stick_from_drag_events(&mut s, &vec![
        DragEvent::Drag { id: 1, position: vec2(10, 10) },
        DragEvent::End { id: 1 },
    ]);
    assert!(events.is_empty());
    assert_eq!(s.drag_id, None);
    assert_eq!(s.value, vec2(0, 0));
    assert_eq!(s.drag_position, vec2(0, 0));
}

#[test]
fn start_from_second_pointer_cannot_steal() {
    let mut s = stick_with_zone(touch_stick::TouchStickType::Floating, 75);
    update_stick_from_drag_events(&mut s, &vec![DragEvent::Start {
        id: 5,
        position: vec2(10, 10),
    }]);
    assert_eq!(s.drag_id, Some(5));

    // A second pointer starting inside the zone is ignored entirely.
    let before = s;
    let events = update_stick_from_drag_events(&mut s, &vec![DragEvent::Start {
        id: 6,
        position: vec2(-10, -10),
    }]);
    assert_eq!(s.drag_id, Some(5));
    assert_eq!(s.drag_start, before.drag_start);
    assert!(events.iter().all(|e| e.get_type() != TouchStickEventType::Press));
}

#[test]
fn events_from_unrelated_pointers_are_ignored() {
    let mut s = stick_with_zone(touch_stick::TouchStickType::Floating, 75);
    update_stick_from_drag_events(&mut s, &vec![DragEvent::Start {
        id: 5,
        position: vec2(0, 0),
    }]);

    // Moves and ends from a different pointer change nothing.
    let events = update_stick_from_drag_events(&mut s, &vec![
        DragEvent::Drag { id: 9, position: vec2(75, 0) },
        DragEvent::End { id: 9 },
    ]);
    assert_eq!(s.drag_id, Some(5));
    assert_eq!(s.value, vec2(0, 0));
    assert!(events.iter().all(|e| e.get_type() != TouchStickEventType::Release));
}

#[test]
fn press_and_release_pair_up_once() {
    let mut s = stick_with_zone(touch_stick::TouchStickType::Floating, 75);
    let batch = vec![
        DragEvent::Start { id: 2, position: vec2(0, 0) },
        DragEvent::Drag { id: 2, position: vec2(30, 0) },
        DragEvent::Start { id: 4, position: vec2(0, 0) },
        DragEvent::Drag { id: 2, position: vec2(60, 0) },
        DragEvent::End { id: 4 },
        DragEvent::End { id: 2 },
    ];
    let events = update_stick_from_drag_events(&mut s, &batch);
    let presses = events
        .iter()
        .filter(|e| e.get_type() == TouchStickEventType::Press)
        .count();
    let releases = events
        .iter()
        .filter(|e| e.get_type() == TouchStickEventType::Release)
        .count();
    assert_eq!(presses, 1);
    assert_eq!(releases, 1);
    let release = events
        .iter()
        .find(|e| e.get_type() == TouchStickEventType::Release)
        .unwrap();
    assert_eq!(release.value(), vec2(0, 0));
    assert_eq!(s.drag_id, None);
}

#[test]
fn start_outside_zone_is_ignored() {
    let mut s = stick_with_zone(touch_stick::TouchStickType::Floating, 75);
    let events = update_stick_from_drag_events(&mut s, &vec![DragEvent::Start {
        id: 1,
        position: vec2(76, 0),
    }]);
    assert_eq!(s.drag_id, None);
    assert!(events.is_empty());
}

#[test]
fn degenerate_zone_skips_value_update() {
    // A zone with zero horizontal extent: moves record the raw position but
    // never touch the value (no division by the zero half-extent).
    let mut s = TouchStick::new(StickId(1));
    s.interactable_zone = Rect::from_center_size(vec2(0, 0), vec2(0, 100));
    update_stick_from_drag_events(&mut s, &vec![DragEvent::Start {
        id: 1,
        position: vec2(0, 0),
    }]);
    update_stick_from_drag_events(&mut s, &vec![DragEvent::Drag {
        id: 1,
        position: vec2(0, 40),
    }]);
    assert_eq!(s.drag_position, vec2(0, 40));
    assert_eq!(s.value, vec2(0, 0));
}

#[test]
fn overlapping_zones_both_claim_the_pointer() {
    // Arbitration is stick-local: with overlapping zones, both sticks may
    // claim the same pointer on the same tick, deterministically.
    let mut sticks = vec![
        {
            let mut s = stick_with_zone(touch_stick::TouchStickType::Fixed, 75);
            s.id = StickId(1);
            s
        },
        {
            let mut s = stick_with_zone(touch_stick::TouchStickType::Fixed, 75);
            s.id = StickId(2);
            s
        },
    ];
    let events = update_sticks_from_drag_events(&mut sticks, &vec![DragEvent::Start {
        id: 7,
        position: vec2(0, 0),
    }]);
    assert_eq!(sticks[0].drag_id, Some(7));
    assert_eq!(sticks[1].drag_id, Some(7));
    let presses: Vec<_> = events
        .iter()
        .filter(|e| e.get_type() == TouchStickEventType::Press)
        .collect();
    assert_eq!(presses.len(), 2);
    assert_eq!(presses[0].id(), StickId(1));
    assert_eq!(presses[1].id(), StickId(2));
}

#[test]
fn value_stays_in_unit_disc_under_random_drags() {
    // A deterministic pseudo-random walk of starts, moves and ends over
    // varying zone sizes; the squared norm of the value must never exceed
    // SCALE², and an unowned stick must always be fully zeroed.
    let mut seed: u64 = 0x2545_f491_4f6c_dd1d;
    let mut next = move || {
        seed ^= seed << 13;
        seed ^= seed >> 7;
        seed ^= seed << 17;
        seed
    };
    for behavior in [
        touch_stick::TouchStickType::Fixed,
        touch_stick::TouchStickType::Floating,
        touch_stick::TouchStickType::Dynamic,
    ] {
        let half = 1 + (next() % 200) as i64;
        let mut s = stick_with_zone(behavior, half);
        for _ in 0..500 {
            let x = (next() % 2001) as i64 - 1000;
            let y = (next() % 2001) as i64 - 1000;
            let pointer = next() % 3;
            let event = match next() % 4 {
                0 => DragEvent::Start { id: pointer, position: vec2(x, y) },
                3 => DragEvent::End { id: pointer },
                _ => DragEvent::Drag { id: pointer, position: vec2(x, y) },
            };
            update_stick_from_drag_events(&mut s, &vec![event]);
            let norm_sq = s.value.x * s.value.x + s.value.y * s.value.y;
            assert!(norm_sq <= SCALE * SCALE);
            if s.drag_id.is_none() {
                assert_eq!(s.value, vec2(0, 0));
                assert_eq!(s.drag_start, vec2(0, 0));
                assert_eq!(s.drag_position, vec2(0, 0));
                assert_eq!(s.base_position, vec2(0, 0));
            }
        }
    }
}

#[test]
fn roster_events_come_stick_by_stick() {
    let mut sticks = vec![
        {
            let mut s = stick_with_zone(touch_stick::TouchStickType::Fixed, 75);
            s.id = StickId(1);
            s.interactable_zone = Rect::from_center_size(vec2(0, 0), vec2(150, 150));
            s
        },
        {
            let mut s = stick_with_zone(touch_stick::TouchStickType::Fixed, 75);
            s.id = StickId(2);
            s.interactable_zone = Rect::from_center_size(vec2(1000, 0), vec2(150, 150));
            s
        },
    ];
    // One pointer engages each stick in its own zone.
    let events = update_sticks_from_drag_events(&mut sticks, &vec![
        DragEvent::Start { id: 1, position: vec2(0, 0) },
        DragEvent::Start { id: 2, position: vec2(1000, 0) },
    ]);
    // Each stick reports its press (and its zero-value drag, dead zone 0),
    // stick 1 first.
    assert_eq!(events[0].id(), StickId(1));
    assert_eq!(events[0].get_type(), TouchStickEventType::Press);
    assert!(events.iter().any(|e| e.id() == StickId(2)
        && e.get_type() == TouchStickEventType::Press));
    let first_of_two = events.iter().position(|e| e.id() == StickId(2)).unwrap();
    assert!(events[..first_of_two].iter().all(|e| e.id() == StickId(1)));
    assert_eq!(sticks[0].drag_id, Some(1));
    assert_eq!(sticks[1].drag_id, Some(2));
}
