//! The input event normalizer: raw touch-phase records and raw mouse button
//! state become one unified stream of drag events.

use crate::events::{drag_events_wf, DragEvent};
use crate::fixed::POS_LIMIT;
use crate::geom::IVec2;
use vstd::prelude::*;

verus! {

/// Reserved pointer id for the mouse, which is inherently single-pointer.
/// Touch ids come from the platform.
pub const MOUSE_POINTER_ID: u64 = 0;

/// The phase of one raw touch contact record, as the platform reports it.
#[derive(Clone, Copy, Debug, PartialEq, Eq, Structural)]
pub enum TouchPhase {
    /// A finger touched down.
    Started,
    /// A finger moved while down.
    Moved,
    /// A finger was lifted.
    Ended,
    /// The platform canceled the contact.
    Canceled,
}

/// One raw touch record.
#[derive(Clone, Copy, Debug, PartialEq, Eq, Structural)]
pub struct TouchRecord {
    /// Platform-assigned contact id, unique while the contact is active.
    pub id: u64,
    /// What happened to the contact.
    pub phase: TouchPhase,
    /// Where the contact is, in input-space coordinates.
    pub position: IVec2,
}

/// A touch record's position lies within the coordinate limit.
pub open spec fn touch_record_wf(t: TouchRecord) -> bool {
    t.position.in_bounds(POS_LIMIT as int)
}

/// The drag event one touch record maps to: started contacts start a drag,
/// moved contacts move it, ended or canceled contacts end it.
pub open spec fn spec_touch_drag_event(t: TouchRecord) -> DragEvent {
    match t.phase {
        TouchPhase::Started => DragEvent::Start { id: t.id, position: t.position },
        TouchPhase::Moved => DragEvent::Drag { id: t.id, position: t.position },
        TouchPhase::Ended => DragEvent::End { id: t.id },
        TouchPhase::Canceled => DragEvent::End { id: t.id },
    }
}

/// Converts a tick's raw touch records into drag events, one-to-one and
/// order-preserving.
pub fn send_drag_events_from_touch(touches: &Vec<TouchRecord>) -> (out: Vec<DragEvent>)
    requires
        forall|i: int| 0 <= i < touches@.len() ==> touch_record_wf(#[trigger] touches@[i]),
    ensures
        out@.len() == touches@.len(),
        forall|i: int|
            0 <= i < touches@.len() ==> #[trigger] out@[i] == spec_touch_drag_event(touches@[i]),
        drag_events_wf(out@),
{
    let mut out: Vec<DragEvent> = Vec::new();
    let mut i: usize = 0;
    while i < touches.len()
        invariant
            i <= touches@.len(),
            out@.len() == i,
            forall|j: int| 0 <= j < touches@.len() ==> touch_record_wf(#[trigger] touches@[j]),
            forall|j: int|
                0 <= j < i ==> #[trigger] out@[j] == spec_touch_drag_event(touches@[j]),
            drag_events_wf(out@),
        decreases touches@.len() - i,
    {
        let t = touches[i];
        match t.phase {
            TouchPhase::Started => out.push(DragEvent::Start { id: t.id, position: t.position }),
            TouchPhase::Moved => out.push(DragEvent::Drag { id: t.id, position: t.position }),
            TouchPhase::Ended => out.push(DragEvent::End { id: t.id }),
            TouchPhase::Canceled => out.push(DragEvent::End { id: t.id }),
        }
        i = i + 1;
    }
    out
}

/// A mouse button, as far as sticks care.
#[derive(Clone, Copy, Debug, PartialEq, Eq, Structural)]
pub enum MouseButton {
    /// The primary button; the only one that drives sticks.
    Left,
    /// The secondary button.
    Right,
    /// The wheel button.
    Middle,
    /// Any further button.
    Other,
}

/// One raw mouse button transition observed this tick.
#[derive(Clone, Copy, Debug, PartialEq, Eq, Structural)]
pub struct MouseButtonRecord {
    /// Which button changed.
    pub button: MouseButton,
    /// `true` for a press transition, `false` for a release transition.
    pub pressed: bool,
}

/// The cursor position, or the origin when the platform reports none (a drag
/// started with an unknown cursor begins at the origin).
pub open spec fn spec_cursor_or_zero(cursor: Option<IVec2>) -> IVec2 {
    match cursor {
        Some(p) => p,
        None => IVec2::spec_zero(),
    }
}

/// The drag events one mouse button transition produces: the left button's
/// release ends the mouse drag and its press starts one at the cursor; other
/// buttons produce nothing.
pub open spec fn spec_mouse_button_events(r: MouseButtonRecord, cursor: Option<IVec2>) -> Seq<
    DragEvent,
> {
    if r.button == MouseButton::Left {
        if r.pressed {
            seq![DragEvent::Start { id: MOUSE_POINTER_ID, position: spec_cursor_or_zero(cursor) }]
        } else {
            seq![DragEvent::End { id: MOUSE_POINTER_ID }]
        }
    } else {
        Seq::empty()
    }
}

/// The drag events of a whole sequence of button transitions, in order.
pub open spec fn spec_mouse_button_seq(rs: Seq<MouseButtonRecord>, cursor: Option<IVec2>) -> Seq<
    DragEvent,
>
    decreases rs.len(),
{
    if rs.len() == 0 {
        Seq::empty()
    } else {
        spec_mouse_button_seq(rs.drop_last(), cursor) + spec_mouse_button_events(
            rs.last(),
            cursor,
        )
    }
}

/// Everything the mouse contributes this tick: its button transitions'
/// events, then — if the left button is held and the platform reports a
/// cursor position — one move event at the cursor. While the button is held
/// with the cursor outside the window, no move is emitted: the drag stalls
/// but does not end.
pub open spec fn spec_mouse_drag_events(
    rs: Seq<MouseButtonRecord>,
    left_held: bool,
    cursor: Option<IVec2>,
) -> Seq<DragEvent> {
    spec_mouse_button_seq(rs, cursor) + (if left_held && cursor is Some {
        seq![DragEvent::Drag { id: MOUSE_POINTER_ID, position: cursor->0 }]
    } else {
        Seq::empty()
    })
}

/// Converts a tick's raw mouse state into drag events: `button_events` are
/// this tick's button transitions, `left_held` says whether the left button
/// is down at the end of the tick, and `cursor_position` is the cursor
/// position if the platform reports one.
pub fn send_drag_events_from_mouse(
    button_events: &Vec<MouseButtonRecord>,
    left_held: bool,
    cursor_position: Option<IVec2>,
) -> (out: Vec<DragEvent>)
    requires
        match cursor_position {
            Some(p) => p.in_bounds(POS_LIMIT as int),
            None => true,
        },
    ensures
        out@ == spec_mouse_drag_events(button_events@, left_held, cursor_position),
        drag_events_wf(out@),
{
    let cursor_or_zero = match cursor_position {
        Some(p) => p,
        None => IVec2::zero(),
    };
    let mut out: Vec<DragEvent> = Vec::new();
    let mut i: usize = 0;
    while i < button_events.len()
        invariant
            i <= button_events@.len(),
            cursor_or_zero == spec_cursor_or_zero(cursor_position),
            cursor_or_zero.in_bounds(POS_LIMIT as int),
            out@ == spec_mouse_button_seq(button_events@.subrange(0, i as int), cursor_position),
            drag_events_wf(out@),
        decreases button_events@.len() - i,
    {
        proof {
            assert(button_events@.subrange(0, i + 1 as int).drop_last() =~= button_events@.subrange(
                0,
                i as int,
            ));
            assert(button_events@.subrange(0, i + 1 as int).last() == button_events@[i as int]);
        }
        let r = button_events[i];
        match r.button {
            MouseButton::Left => {
                if r.pressed {
                    out.push(DragEvent::Start { id: MOUSE_POINTER_ID, position: cursor_or_zero });
                } else {
                    out.push(DragEvent::End { id: MOUSE_POINTER_ID });
                }
            },
            _ => {},
        }
        proof {
            assert(out@ =~= spec_mouse_button_seq(
                button_events@.subrange(0, i + 1 as int),
                cursor_position,
            ));
        }
        i = i + 1;
    }
    proof {
        assert(button_events@.subrange(0, button_events@.len() as int) =~= button_events@);
    }
    if left_held {
        match cursor_position {
            Some(p) => {
                out.push(DragEvent::Drag { id: MOUSE_POINTER_ID, position: p });
            },
            None => {},
        }
    }
    proof {
        assert(out@ =~= spec_mouse_drag_events(button_events@, left_held, cursor_position));
    }
    out
}

} // verus!
