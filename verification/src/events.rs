//! The unified pointer drag events a stick consumes and the public events it
//! emits.

use crate::fixed::POS_LIMIT;
use crate::geom::IVec2;
use crate::stick::StickId;
use vstd::prelude::*;

verus! {

/// A normalized pointer drag event. Touch contacts and the mouse are both
/// reduced to this shape; `id` distinguishes concurrently active pointers.
#[derive(Clone, Copy, Debug, PartialEq, Eq, Structural)]
pub enum DragEvent {
    /// A pointer touched down.
    Start { id: u64, position: IVec2 },
    /// A pointer moved while held down.
    Drag { id: u64, position: IVec2 },
    /// A pointer was lifted or its contact canceled.
    End { id: u64 },
}

/// Every position a drag event carries lies within the coordinate limit.
pub open spec fn drag_event_wf(e: DragEvent) -> bool {
    match e {
        DragEvent::Start { position, .. } => position.in_bounds(POS_LIMIT as int),
        DragEvent::Drag { position, .. } => position.in_bounds(POS_LIMIT as int),
        DragEvent::End { .. } => true,
    }
}

/// All events of a batch are well-formed.
pub open spec fn drag_events_wf(es: Seq<DragEvent>) -> bool {
    forall|i: int| 0 <= i < es.len() ==> drag_event_wf(#[trigger] es[i])
}

/// What kind of interaction a stick event reports.
#[derive(Clone, Copy, Debug, PartialEq, Eq, Structural)]
pub enum TouchStickEventType {
    /// The stick was engaged by a pointer.
    Press,
    /// The stick is held and its value is outside the dead zone.
    Drag,
    /// The stick was released.
    Release,
}

/// Event sent whenever a stick is interacted with.
#[derive(Clone, Copy, Debug, PartialEq, Eq, Structural)]
pub struct TouchStickEvent {
    /// Identifier of the stick that sent this event.
    pub id: StickId,
    /// The kind of interaction.
    pub event: TouchStickEventType,
    /// The stick's output value at emission time, magnitude at most `SCALE`.
    pub value: IVec2,
}

impl TouchStickEvent {
    /// The id of the stick that sent the event.
    pub fn id(&self) -> (r: StickId)
        ensures
            r == self.id,
    {
        self.id
    }

    /// The value of the stick, magnitude at most `SCALE`.
    pub fn value(&self) -> (v: IVec2)
        ensures
            v == self.value,
    {
        self.value
    }

    /// The kind of interaction the event reports.
    pub fn get_type(&self) -> (t: TouchStickEventType)
        ensures
            t == self.event,
    {
        self.event
    }
}

} // verus!
