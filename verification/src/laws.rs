//! Laws of the drag engine, proved once and for all: the unit-disc bound,
//! the idle invariant, press/release pairing, the no-steal guarantee,
//! dead-zone gating, and replay determinism.

use crate::engine::{
    lemma_run_preserves_wf, opt_event_seq, spec_claims, spec_drag_emission, spec_run,
    spec_run_events, spec_step, spec_step_event, spec_tick_events,
};
use crate::events::{drag_events_wf, DragEvent, TouchStickEvent, TouchStickEventType};
use crate::fixed::{abs_i, SCALE};
use crate::geom::IVec2;
use crate::stick::TouchStick;
use vstd::prelude::*;

verus! {

/// How many events of a given kind a sequence holds.
pub open spec fn count_events(es: Seq<TouchStickEvent>, kind: TouchStickEventType) -> nat
    decreases es.len(),
{
    if es.len() == 0 {
        0
    } else {
        count_events(es.drop_last(), kind) + (if es.last().event == kind {
            1nat
        } else {
            0nat
        })
    }
}

/// A single event counts once for its own kind and not at all for others.
pub proof fn lemma_count_singleton(e: TouchStickEvent, kind: TouchStickEventType)
    ensures
        count_events(seq![e], kind) == (if e.event == kind {
            1nat
        } else {
            0nat
        }),
{
    assert(seq![e].drop_last() =~= Seq::<TouchStickEvent>::empty());
    assert(count_events(Seq::<TouchStickEvent>::empty(), kind) == 0);
    assert(seq![e].last() == e);
}

/// Counting events distributes over concatenation.
pub proof fn lemma_count_append(
    a: Seq<TouchStickEvent>,
    b: Seq<TouchStickEvent>,
    kind: TouchStickEventType,
)
    ensures
        count_events(a + b, kind) == count_events(a, kind) + count_events(b, kind),
    decreases b.len(),
{
    if b.len() == 0 {
        assert(a + b =~= a);
    } else {
        lemma_count_append(a, b.drop_last(), kind);
        assert((a + b).drop_last() =~= a + b.drop_last());
        assert((a + b).last() == b.last());
    }
}

/// The engine never changes a stick's identity or configuration: id,
/// behavior, dead zone, radius, and zone survive any batch of drag events.
pub proof fn lemma_run_preserves_config(s: TouchStick, es: Seq<DragEvent>)
    ensures
        spec_run(s, es).id == s.id,
        spec_run(s, es).stick_type == s.stick_type,
        spec_run(s, es).dead_zone == s.dead_zone,
        spec_run(s, es).radius == s.radius,
        spec_run(s, es).interactable_zone == s.interactable_zone,
        spec_run(s, es).spec_config() == s.spec_config(),
    decreases es.len(),
{
    if es.len() > 0 {
        lemma_run_preserves_config(s, es.drop_last());
    }
}

/// Law: in every state reachable from a well-formed stick by well-formed drag
/// events, the output value's magnitude is at most one: both components stay
/// within `±SCALE` and the squared norm within `SCALE * SCALE`.
pub proof fn lemma_value_in_unit_disc(s0: TouchStick, es: Seq<DragEvent>)
    requires
        s0.wf(),
        drag_events_wf(es),
    ensures
        -SCALE <= spec_run(s0, es).value.x <= SCALE,
        -SCALE <= spec_run(s0, es).value.y <= SCALE,
        spec_run(s0, es).value.x * spec_run(s0, es).value.x + spec_run(s0, es).value.y * spec_run(
            s0,
            es,
        ).value.y <= SCALE * SCALE,
{
    lemma_run_preserves_wf(s0, es);
}

/// Law: whenever a reachable stick is unowned, all of its position fields and
/// its value are exactly zero.
pub proof fn lemma_idle_is_zeroed(s0: TouchStick, es: Seq<DragEvent>)
    requires
        s0.wf(),
        drag_events_wf(es),
        spec_run(s0, es).drag_id is None,
    ensures
        spec_run(s0, es).is_idle_zeroed(),
{
    lemma_run_preserves_wf(s0, es);
}

/// Law: a start event aimed at an owned stick steals nothing: the stick is
/// left unchanged and no press is emitted, whichever pointer tries.
pub proof fn lemma_no_steal(s: TouchStick, id: u64, position: IVec2)
    requires
        s.drag_id is Some,
    ensures
        spec_step(s, DragEvent::Start { id, position }) == s,
        spec_step_event(s, DragEvent::Start { id, position }) is None,
{
}

/// No event of the batch ends pointer `p`'s drag.
pub open spec fn no_end_from(es: Seq<DragEvent>, p: u64) -> bool {
    forall|i: int|
        0 <= i < es.len() ==> !((#[trigger] es[i]) matches DragEvent::End { id } && id == p)
}

/// While a stick is owned by a pointer and that pointer does not end its
/// drag, the stick stays owned by that pointer and emits neither press nor
/// release.
pub proof fn lemma_owned_segment(s: TouchStick, es: Seq<DragEvent>, p: u64)
    requires
        s.drag_id == Some(p),
        no_end_from(es, p),
    ensures
        spec_run(s, es).drag_id == Some(p),
        count_events(spec_run_events(s, es), TouchStickEventType::Press) == 0,
        count_events(spec_run_events(s, es), TouchStickEventType::Release) == 0,
    decreases es.len(),
{
    if es.len() > 0 {
        assert(no_end_from(es.drop_last(), p)) by {
            assert(forall|i: int|
                0 <= i < es.drop_last().len() ==> (#[trigger] es.drop_last()[i]) == es[i]);
        }
        lemma_owned_segment(s, es.drop_last(), p);
        let s1 = spec_run(s, es.drop_last());
        let e = es.last();
        assert(!(e matches DragEvent::End { id } && id == p));
        assert(spec_step(s1, e).drag_id == Some(p));
        assert(spec_step_event(s1, e) is None);
        lemma_count_append(
            spec_run_events(s, es.drop_last()),
            opt_event_seq(spec_step_event(s1, e)),
            TouchStickEventType::Press,
        );
        lemma_count_append(
            spec_run_events(s, es.drop_last()),
            opt_event_seq(spec_step_event(s1, e)),
            TouchStickEventType::Release,
        );
    }
}

/// Running a concatenated batch equals running its halves in order, for both
/// the final state and the emitted events.
pub proof fn lemma_run_append(s: TouchStick, a: Seq<DragEvent>, b: Seq<DragEvent>)
    ensures
        spec_run(s, a + b) == spec_run(spec_run(s, a), b),
        spec_run_events(s, a + b) == spec_run_events(s, a) + spec_run_events(spec_run(s, a), b),
    decreases b.len(),
{
    if b.len() == 0 {
        assert(a + b =~= a);
        assert(spec_run_events(s, a) + spec_run_events(spec_run(s, a), b) =~= spec_run_events(
            s,
            a,
        ));
    } else {
        lemma_run_append(s, a, b.drop_last());
        assert((a + b).drop_last() =~= a + b.drop_last());
        assert((a + b).last() == b.last());
        let s1 = spec_run(s, a);
        let tail = opt_event_seq(spec_step_event(spec_run(s1, b.drop_last()), b.last()));
        assert((spec_run_events(s, a) + spec_run_events(s1, b.drop_last())) + tail
            =~= spec_run_events(s, a) + (spec_run_events(s1, b.drop_last()) + tail));
    }
}

/// Law: a single uninterrupted pointer lifetime (a claiming start, any events
/// that do not end that pointer's drag, then its end) emits exactly one press
/// and exactly one release, and the release carries the zero value.
pub proof fn lemma_press_release_paired(
    s0: TouchStick,
    mid: Seq<DragEvent>,
    p: u64,
    position: IVec2,
)
    requires
        spec_claims(s0, position),
        no_end_from(mid, p),
    ensures
        ({
            let es = seq![DragEvent::Start { id: p, position }] + mid + seq![
                DragEvent::End { id: p },
            ];
            &&& count_events(spec_run_events(s0, es), TouchStickEventType::Press) == 1
            &&& count_events(spec_run_events(s0, es), TouchStickEventType::Release) == 1
            &&& spec_run_events(s0, es).last() == (TouchStickEvent {
                id: s0.id,
                event: TouchStickEventType::Release,
                value: IVec2::spec_zero(),
            })
            &&& spec_run(s0, es).drag_id is None
        }),
{
    let a = seq![DragEvent::Start { id: p, position }];
    let z = seq![DragEvent::End { id: p }];
    let es = a + mid + z;
    lemma_run_append(s0, a + mid, z);
    lemma_run_append(s0, a, mid);
    let e0 = Seq::<DragEvent>::empty();
    assert(a.drop_last() =~= e0);
    assert(spec_run(s0, e0) == s0);
    assert(spec_run_events(s0, e0) =~= Seq::<TouchStickEvent>::empty());
    let s1 = spec_run(s0, a);
    assert(s1 == spec_step(s0, a.last()));
    assert(s1.drag_id == Some(p));
    let press = TouchStickEvent {
        id: s0.id,
        event: TouchStickEventType::Press,
        value: IVec2::spec_zero(),
    };
    assert(spec_step_event(s0, a.last()) == Some(press));
    assert(opt_event_seq(Some(press)) =~= seq![press]);
    assert(spec_run_events(s0, a) == spec_run_events(s0, a.drop_last()) + opt_event_seq(
        spec_step_event(spec_run(s0, a.drop_last()), a.last()),
    ));
    assert(spec_run_events(s0, a) =~= seq![press]);
    lemma_owned_segment(s1, mid, p);
    let s2 = spec_run(s1, mid);
    lemma_run_preserves_config(s0, a);
    lemma_run_preserves_config(s1, mid);
    assert(s2.id == s0.id);
    assert(z.drop_last() =~= e0);
    assert(spec_run(s2, e0) == s2);
    assert(spec_run_events(s2, e0) =~= Seq::<TouchStickEvent>::empty());
    let release = TouchStickEvent {
        id: s0.id,
        event: TouchStickEventType::Release,
        value: IVec2::spec_zero(),
    };
    assert(spec_step_event(s2, z.last()) == Some(release));
    assert(opt_event_seq(Some(release)) =~= seq![release]);
    assert(spec_run_events(s2, z) == spec_run_events(s2, z.drop_last()) + opt_event_seq(
        spec_step_event(spec_run(s2, z.drop_last()), z.last()),
    ));
    assert(spec_run_events(s2, z) =~= seq![release]);
    let head = spec_run_events(s0, a + mid);
    assert(head == seq![press] + spec_run_events(s1, mid));
    assert(spec_run_events(s0, es) == head + seq![release]);
    lemma_count_append(head, seq![release], TouchStickEventType::Press);
    lemma_count_append(head, seq![release], TouchStickEventType::Release);
    lemma_count_append(seq![press], spec_run_events(s1, mid), TouchStickEventType::Press);
    lemma_count_append(seq![press], spec_run_events(s1, mid), TouchStickEventType::Release);
    lemma_count_singleton(press, TouchStickEventType::Press);
    lemma_count_singleton(press, TouchStickEventType::Release);
    lemma_count_singleton(release, TouchStickEventType::Press);
    lemma_count_singleton(release, TouchStickEventType::Release);
    assert(spec_run_events(s0, es).last() == release);
    assert(spec_run(s2, z).drag_id is None);
}

/// The per-event stream holds presses and releases only: no drag events.
pub proof fn lemma_run_events_no_drag(s: TouchStick, es: Seq<DragEvent>)
    ensures
        count_events(spec_run_events(s, es), TouchStickEventType::Drag) == 0,
    decreases es.len(),
{
    if es.len() > 0 {
        lemma_run_events_no_drag(s, es.drop_last());
        let o = spec_step_event(spec_run(s, es.drop_last()), es.last());
        lemma_count_append(spec_run_events(s, es.drop_last()), opt_event_seq(o), TouchStickEventType::Drag);
        match o {
            Some(ev) => {
                assert(ev.event != TouchStickEventType::Drag);
                assert(opt_event_seq(o) =~= seq![ev]);
                lemma_count_singleton(ev, TouchStickEventType::Drag);
            },
            None => {
                assert(count_events(opt_event_seq(o), TouchStickEventType::Drag) == 0);
            },
        }
    }
}

/// Law: a tick emits a drag event if and only if the stick ends the tick
/// owned with some value component's magnitude at or beyond the dead zone; in
/// particular, no drag event fires while both components stay inside it.
pub proof fn lemma_dead_zone_gating(s0: TouchStick, es: Seq<DragEvent>)
    ensures
        count_events(spec_tick_events(s0, es), TouchStickEventType::Drag) == (
        if spec_drag_emission(spec_run(s0, es)) is Some {
            1nat
        } else {
            0nat
        }),
        (abs_i(spec_run(s0, es).value.x as int) < spec_run(s0, es).dead_zone && abs_i(
            spec_run(s0, es).value.y as int,
        ) < spec_run(s0, es).dead_zone) ==> count_events(
            spec_tick_events(s0, es),
            TouchStickEventType::Drag,
        ) == 0,
{
    lemma_run_events_no_drag(s0, es);
    let o = spec_drag_emission(spec_run(s0, es));
    let tail = opt_event_seq(o);
    lemma_count_append(spec_run_events(s0, es), tail, TouchStickEventType::Drag);
    match o {
        Some(ev) => {
            assert(ev.event == TouchStickEventType::Drag);
            assert(tail =~= seq![ev]);
            lemma_count_singleton(ev, TouchStickEventType::Drag);
        },
        None => {
            assert(count_events(tail, TouchStickEventType::Drag) == 0);
        },
    }
}

/// Two sticks that agree on everything except their identity.
pub open spec fn same_but_id(a: TouchStick, b: TouchStick) -> bool {
    &&& a.drag_id == b.drag_id
    &&& a.dead_zone == b.dead_zone
    &&& a.base_position == b.base_position
    &&& a.drag_start == b.drag_start
    &&& a.drag_position == b.drag_position
    &&& a.value == b.value
    &&& a.interactable_zone == b.interactable_zone
    &&& a.radius == b.radius
    &&& a.stick_type == b.stick_type
}

/// One drag event treats two sticks that differ only in identity alike.
pub proof fn lemma_step_same_but_id(a: TouchStick, b: TouchStick, e: DragEvent)
    requires
        same_but_id(a, b),
    ensures
        same_but_id(spec_step(a, e), spec_step(b, e)),
{
}

/// The output value after each event of a batch, in order.
pub open spec fn spec_value_trace(s: TouchStick, es: Seq<DragEvent>) -> Seq<IVec2>
    decreases es.len(),
{
    if es.len() == 0 {
        Seq::empty()
    } else {
        spec_value_trace(s, es.drop_last()).push(spec_run(s, es).value)
    }
}

/// Law: replaying the same drag events against a stick restored from the same
/// saved fields reproduces an identical value trace — the trace depends only
/// on the configuration, the zone, and the events, never on the identity.
pub proof fn lemma_replay_deterministic(a: TouchStick, b: TouchStick, es: Seq<DragEvent>)
    requires
        same_but_id(a, b),
    ensures
        spec_value_trace(a, es) == spec_value_trace(b, es),
        same_but_id(spec_run(a, es), spec_run(b, es)),
    decreases es.len(),
{
    if es.len() == 0 {
        assert(spec_value_trace(a, es) =~= spec_value_trace(b, es));
    } else {
        lemma_replay_deterministic(a, b, es.drop_last());
        lemma_step_same_but_id(spec_run(a, es.drop_last()), spec_run(b, es.drop_last()), es.last());
        assert(spec_value_trace(a, es) =~= spec_value_trace(b, es));
    }
}

} // verus!
