//! The drag arbitration and value computation engine.
//!
//! Every stick consumes every normalized drag event of a tick, in order. A
//! `Start` inside the stick's zone claims ownership and presses the stick, a
//! `Drag` from the owning pointer moves it, an `End` from the owning pointer
//! releases it; everything else is ignored. After a stick has seen the whole
//! batch, a drag event fires if the stick is owned and its value lies outside
//! the dead zone.

use crate::events::{drag_event_wf, drag_events_wf, DragEvent, TouchStickEvent, TouchStickEventType};
use crate::fixed::{
    abs_i, clamp_ratio, isqrt_spec, isqrt_u128, lemma_clamped_norm, lemma_isqrt_bounds,
    lemma_sqrt_ceil_bounds, scale_ratio, sqrt_ceil_spec, sqrt_ceil_u128, tdiv, POS_LIMIT, SCALE,
};
use crate::geom::IVec2;
use crate::stick::{TouchStick, TouchStickType};
use vstd::prelude::*;

verus! {

/// A drag offset component scaled by the matching zone half-extent: the
/// offset in output units before clamping.
pub open spec fn spec_scaled_offset(diff: int, half: int) -> int {
    tdiv(diff * SCALE, half)
}

/// The divisor that clamps a scaled offset onto the unit disc: the offset's
/// Euclidean norm rounded up, or `SCALE` (that is, `1.0`) when the offset
/// already lies inside the disc.
pub open spec fn spec_norm_den(dx: int, dy: int) -> int {
    let len = sqrt_ceil_spec((dx * dx + dy * dy) as nat) as int;
    if len > SCALE {
        len
    } else {
        SCALE as int
    }
}

/// The x component of the output value for a drag offset `diff` against zone
/// half-extents `hx`, `hy`.
pub open spec fn spec_value_x(diff_x: int, diff_y: int, hx: int, hy: int) -> int {
    let dx = spec_scaled_offset(diff_x, hx);
    let dy = spec_scaled_offset(diff_y, hy);
    tdiv(dx * SCALE, spec_norm_den(dx, dy))
}

/// The y component of the output value: as `spec_value_x`, with the sign
/// flipped to turn y-down input space into y-up output space.
pub open spec fn spec_value_y(diff_x: int, diff_y: int, hx: int, hy: int) -> int {
    let dx = spec_scaled_offset(diff_x, hx);
    let dy = spec_scaled_offset(diff_y, hy);
    -tdiv(dy * SCALE, spec_norm_den(dx, dy))
}

/// The output value for a drag offset `diff = drag_position - drag_start`.
pub open spec fn spec_value(diff_x: int, diff_y: int, hx: int, hy: int) -> IVec2 {
    IVec2 {
        x: spec_value_x(diff_x, diff_y, hx, hy) as i64,
        y: spec_value_y(diff_x, diff_y, hx, hy) as i64,
    }
}

/// How far one component of the reference point slides toward the pointer:
/// the excess of the pointer's distance beyond `hx`, projected onto that
/// component.
pub open spec fn spec_slide(tp: int, dist: int, hx: int) -> int {
    tdiv(tp * (dist - hx), dist)
}

/// Where a dynamic stick's reference point ends up: unchanged while the
/// pointer stays within `hx` of it, otherwise slid toward the pointer by the
/// excess distance.
pub open spec fn spec_dynamic_drag_start(start: IVec2, cur: IVec2, hx: int) -> IVec2 {
    let tpx = cur.x - start.x;
    let tpy = cur.y - start.y;
    if tpx * tpx + tpy * tpy > hx * hx {
        let dist = isqrt_spec((tpx * tpx + tpy * tpy) as nat) as int;
        IVec2 {
            x: (start.x + spec_slide(tpx, dist, hx)) as i64,
            y: (start.y + spec_slide(tpy, dist, hx)) as i64,
        }
    } else {
        start
    }
}

/// Whether a `Start` at `position` by pointer `id` claims the stick: it must
/// be unowned and the position must lie in its zone.
pub open spec fn spec_claims(s: TouchStick, position: IVec2) -> bool {
    &&& s.drag_id is None
    &&& s.interactable_zone.spec_contains(position)
}

/// The stick after a `Drag` (move) event from its owning pointer: the raw
/// position is recorded; unless the zone is degenerate, a dynamic stick's
/// reference point chases the pointer, and the output value is recomputed
/// from the offset against the zone half-extents.
pub open spec fn spec_move(s: TouchStick, position: IVec2) -> TouchStick {
    let hx = s.interactable_zone.spec_half_width();
    let hy = s.interactable_zone.spec_half_height();
    if hx == 0 || hy == 0 {
        TouchStick { drag_position: position, ..s }
    } else {
        let start = if s.stick_type == TouchStickType::Dynamic {
            spec_dynamic_drag_start(s.drag_start, position, hx)
        } else {
            s.drag_start
        };
        let base = if s.stick_type == TouchStickType::Dynamic {
            position
        } else {
            s.base_position
        };
        TouchStick {
            drag_position: position,
            drag_start: start,
            base_position: base,
            value: spec_value(position.x - start.x, position.y - start.y, hx, hy),
            ..s
        }
    }
}

/// The stick after one drag event: a claiming `Start` engages it, a `Drag`
/// from the owner moves it, an `End` from the owner resets it to the zeroed
/// idle state, and every other event leaves it unchanged.
pub open spec fn spec_step(s: TouchStick, e: DragEvent) -> TouchStick {
    match e {
        DragEvent::Start { id, position } => {
            if spec_claims(s, position) {
                TouchStick {
                    drag_id: Some(id),
                    drag_start: position,
                    drag_position: position,
                    value: IVec2::spec_zero(),
                    ..s
                }
            } else {
                s
            }
        },
        DragEvent::Drag { id, position } => {
            if s.drag_id == Some(id) {
                spec_move(s, position)
            } else {
                s
            }
        },
        DragEvent::End { id } => {
            if s.drag_id == Some(id) {
                TouchStick {
                    drag_id: None,
                    base_position: IVec2::spec_zero(),
                    drag_start: IVec2::spec_zero(),
                    drag_position: IVec2::spec_zero(),
                    value: IVec2::spec_zero(),
                    ..s
                }
            } else {
                s
            }
        },
    }
}

/// The event one drag event makes the stick emit: `Press` exactly when a
/// `Start` claims it, `Release` exactly when an `End` from the owner releases
/// it, both carrying the zero value; nothing otherwise.
pub open spec fn spec_step_event(s: TouchStick, e: DragEvent) -> Option<TouchStickEvent> {
    match e {
        DragEvent::Start { id, position } => {
            if spec_claims(s, position) {
                Some(
                    TouchStickEvent {
                        id: s.id,
                        event: TouchStickEventType::Press,
                        value: IVec2::spec_zero(),
                    },
                )
            } else {
                None
            }
        },
        DragEvent::Drag { .. } => None,
        DragEvent::End { id } => {
            if s.drag_id == Some(id) {
                Some(
                    TouchStickEvent {
                        id: s.id,
                        event: TouchStickEventType::Release,
                        value: IVec2::spec_zero(),
                    },
                )
            } else {
                None
            }
        },
    }
}

/// Clamped value computation: the offset is scaled component-wise by the zone
/// half-extents and divided by the larger of its own norm and `SCALE`, which
/// bounds the result to the unit disc without renormalizing vectors already
/// inside it; the y axis is flipped.
fn compute_value(diff_x: i64, diff_y: i64, hx: i64, hy: i64) -> (v: IVec2)
    requires
        1 <= hx <= POS_LIMIT,
        1 <= hy <= POS_LIMIT,
        abs_i(diff_x as int) <= 2 * POS_LIMIT,
        abs_i(diff_y as int) <= 2 * POS_LIMIT,
    ensures
        v == spec_value(diff_x as int, diff_y as int, hx as int, hy as int),
        -SCALE <= v.x <= SCALE,
        -SCALE <= v.y <= SCALE,
        v.x * v.x + v.y * v.y <= SCALE * SCALE,
{
    let dx = scale_ratio(diff_x, hx);
    let dy = scale_ratio(diff_y, hy);
    proof {
        assert(0 <= dx * dx <= (2 * 0x100_0000_0000i64 * 10000) * (2 * 0x100_0000_0000i64 * 10000)
            && 0 <= dy * dy <= (2 * 0x100_0000_0000i64 * 10000) * (2 * 0x100_0000_0000i64 * 10000))
            by (nonlinear_arith)
            requires
                -(2 * 0x100_0000_0000i64 * 10000) <= dx <= 2 * 0x100_0000_0000i64 * 10000,
                -(2 * 0x100_0000_0000i64 * 10000) <= dy <= 2 * 0x100_0000_0000i64 * 10000,
        ;
    }
    let dx2 = (dx as i128) * (dx as i128);
    let dy2 = (dy as i128) * (dy as i128);
    let dsq = (dx2 + dy2) as u128;
    let len = sqrt_ceil_u128(dsq);
    let den = if len > SCALE as u128 {
        len
    } else {
        SCALE as u128
    };
    proof {
        assert(-(len as int) <= dx && dx <= len as int && -(len as int) <= dy && dy <= len as int)
            by (nonlinear_arith)
            requires
                dx2 == dx * dx,
                dy2 == dy * dy,
                0 <= dx2,
                0 <= dy2,
                dsq == dx2 + dy2,
                dsq <= len * len,
        ;
        assert(dx * dx + dy * dy <= (den as int) * (den as int)) by (nonlinear_arith)
            requires
                dx2 == dx * dx,
                dy2 == dy * dy,
                dsq == dx2 + dy2,
                dsq <= len * len,
                0 <= len <= den,
        ;
        lemma_clamped_norm(dx as int, dy as int, den as int);
    }
    let vx = clamp_ratio(dx, den);
    let vy = clamp_ratio(dy, den);
    let v = IVec2 { x: vx, y: -vy };
    proof {
        assert(den as int == spec_norm_den(dx as int, dy as int));
        assert(v.x as int == spec_value_x(diff_x as int, diff_y as int, hx as int, hy as int));
        assert(v.y as int == spec_value_y(diff_x as int, diff_y as int, hx as int, hy as int));
        assert((v.y as int) * (v.y as int) == (vy as int) * (vy as int)) by (nonlinear_arith)
            requires
                v.y as int == -(vy as int),
        ;
        assert(v.x * v.x + v.y * v.y <= SCALE * SCALE);
    }
    v
}

/// One component of the dynamic reference-point slide: `tp` scaled by the
/// fraction of the pointer distance that exceeds `hx`. The result never
/// overshoots `tp` and keeps its sign.
fn slide_component(tp: i64, dist: u128, hx: i64) -> (r: i64)
    requires
        1 <= hx,
        hx as u128 <= dist,
        dist < 0x1_0000_0000_0000_0000,
        abs_i(tp as int) <= 2 * POS_LIMIT,
    ensures
        r as int == spec_slide(tp as int, dist as int, hx as int),
        0 <= tp ==> 0 <= r <= tp,
        tp < 0 ==> tp <= r <= 0,
{
    let neg = tp < 0;
    let mag: u128 = if neg {
        (-(tp as i128)) as u128
    } else {
        tp as u128
    };
    proof {
        assert(0 <= mag * (dist - hx as u128) <= (2 * 0x100_0000_0000u128) * (
        0x1_0000_0000_0000_0000u128)) by (nonlinear_arith)
            requires
                mag <= 2 * 0x100_0000_0000u128,
                hx as u128 <= dist,
                dist < 0x1_0000_0000_0000_0000u128,
        ;
    }
    let num = mag * (dist - hx as u128);
    let q = num / dist;
    proof {
        let excess = dist as int - hx as int;
        assert(num as int <= (dist as int) * (mag as int) && (num as int) * 1 == (mag as int)
            * excess) by (nonlinear_arith)
            requires
                num as int == (mag as int) * excess,
                excess == dist as int - hx as int,
                0 <= mag as int,
                1 <= hx as int,
                hx as int <= dist as int,
        ;
        vstd::arithmetic::div_mod::lemma_div_is_ordered(
            num as int,
            (dist as int) * (mag as int),
            dist as int,
        );
        vstd::arithmetic::div_mod::lemma_div_multiples_vanish(mag as int, dist as int);
        vstd::arithmetic::div_mod::lemma_div_pos_is_pos(num as int, dist as int);
        if neg {
            assert((tp as int) * excess == -((mag as int) * excess)) by (nonlinear_arith)
                requires
                    mag as int == -(tp as int),
                    0 <= excess,
            ;
            crate::fixed::lemma_tdiv_neg((mag as int) * excess, dist as int);
            assert(tdiv((mag as int) * excess, dist as int) == num as int / dist as int);
        } else {
            assert((tp as int) * excess == (mag as int) * excess) by (nonlinear_arith)
                requires
                    mag as int == tp as int,
            ;
            assert(tdiv((tp as int) * excess, dist as int) == num as int / dist as int);
        }
    }
    if neg {
        -(q as i64)
    } else {
        q as i64
    }
}

/// Where a dynamic stick's reference point ends up after a move to `cur`:
/// each coordinate stays between its old value and the pointer's.
fn dynamic_drag_start(start: IVec2, cur: IVec2, hx: i64) -> (r: IVec2)
    requires
        start.in_bounds(POS_LIMIT as int),
        cur.in_bounds(POS_LIMIT as int),
        1 <= hx <= POS_LIMIT,
    ensures
        r == spec_dynamic_drag_start(start, cur, hx as int),
        r.in_bounds(POS_LIMIT as int),
{
    let tpx = cur.x - start.x;
    let tpy = cur.y - start.y;
    proof {
        assert(0 <= tpx * tpx <= (2 * 0x100_0000_0000i64) * (2 * 0x100_0000_0000i64) && 0 <= tpy
            * tpy <= (2 * 0x100_0000_0000i64) * (2 * 0x100_0000_0000i64) && 0 <= hx * hx <= (2
            * 0x100_0000_0000i64) * (2 * 0x100_0000_0000i64)) by (nonlinear_arith)
            requires
                -(2 * 0x100_0000_0000i64) <= tpx <= 2 * 0x100_0000_0000i64,
                -(2 * 0x100_0000_0000i64) <= tpy <= 2 * 0x100_0000_0000i64,
                1 <= hx <= 0x100_0000_0000i64,
        ;
    }
    let tsq_i = (tpx as i128) * (tpx as i128) + (tpy as i128) * (tpy as i128);
    let hx2 = (hx as i128) * (hx as i128);
    if tsq_i > hx2 {
        let dist = isqrt_u128(tsq_i as u128);
        proof {
            assert(hx as u128 <= dist && 1 <= dist) by (nonlinear_arith)
                requires
                    dist * dist <= tsq_i,
                    tsq_i < (dist + 1) * (dist + 1),
                    hx2 == hx * hx,
                    hx2 < tsq_i,
                    0 <= dist,
                    1 <= hx,
            ;
        }
        let sx = slide_component(tpx, dist, hx);
        let sy = slide_component(tpy, dist, hx);
        IVec2 { x: start.x + sx, y: start.y + sy }
    } else {
        start
    }
}

/// The stick after a whole batch of drag events, processed in order.
pub open spec fn spec_run(s: TouchStick, es: Seq<DragEvent>) -> TouchStick
    decreases es.len(),
{
    if es.len() == 0 {
        s
    } else {
        spec_step(spec_run(s, es.drop_last()), es.last())
    }
}

/// An optional event, as a sequence of zero or one events.
pub open spec fn opt_event_seq(o: Option<TouchStickEvent>) -> Seq<TouchStickEvent> {
    match o {
        Option::Some(e) => seq![e],
        Option::None => Seq::empty(),
    }
}

/// The press and release events a batch makes the stick emit, in order.
pub open spec fn spec_run_events(s: TouchStick, es: Seq<DragEvent>) -> Seq<TouchStickEvent>
    decreases es.len(),
{
    if es.len() == 0 {
        Seq::empty()
    } else {
        spec_run_events(s, es.drop_last()) + opt_event_seq(
            spec_step_event(spec_run(s, es.drop_last()), es.last()),
        )
    }
}

/// The drag event the dead-zone check emits once the batch is processed: it
/// fires if and only if the stick is owned and some component of its value
/// reaches the dead zone in magnitude.
pub open spec fn spec_drag_emission(s: TouchStick) -> Option<TouchStickEvent> {
    if s.drag_id is Some && (abs_i(s.value.x as int) >= s.dead_zone || abs_i(s.value.y as int)
        >= s.dead_zone) {
        Some(TouchStickEvent { id: s.id, event: TouchStickEventType::Drag, value: s.value })
    } else {
        None
    }
}

/// Everything one stick emits during one tick: its presses and releases in
/// event order, then its dead-zone-gated drag event.
pub open spec fn spec_tick_events(s: TouchStick, es: Seq<DragEvent>) -> Seq<TouchStickEvent> {
    spec_run_events(s, es) + opt_event_seq(spec_drag_emission(spec_run(s, es)))
}

/// What a whole roster of sticks emits during one tick, stick by stick; each
/// stick sees the same batch.
pub open spec fn spec_all_tick_events(sticks: Seq<TouchStick>, es: Seq<DragEvent>) -> Seq<
    TouchStickEvent,
>
    decreases sticks.len(),
{
    if sticks.len() == 0 {
        Seq::empty()
    } else {
        spec_all_tick_events(sticks.drop_last(), es) + spec_tick_events(sticks.last(), es)
    }
}

/// A slide component never overshoots the pointer offset and keeps its sign.
pub proof fn lemma_slide_bounds(tp: int, dist: int, hx: int)
    requires
        1 <= hx <= dist,
    ensures
        0 <= tp ==> 0 <= spec_slide(tp, dist, hx) <= tp,
        tp <= 0 ==> tp <= spec_slide(tp, dist, hx) <= 0,
{
    let excess = dist - hx;
    let m = abs_i(tp) * excess;
    assert(0 <= m && m <= dist * abs_i(tp)) by (nonlinear_arith)
        requires
            m == abs_i(tp) * excess,
            0 <= abs_i(tp),
            0 <= excess <= dist,
    ;
    vstd::arithmetic::div_mod::lemma_div_pos_is_pos(m, dist);
    vstd::arithmetic::div_mod::lemma_div_is_ordered(m, dist * abs_i(tp), dist);
    vstd::arithmetic::div_mod::lemma_div_multiples_vanish(abs_i(tp), dist);
    if tp >= 0 {
        assert(tp * excess == m) by (nonlinear_arith)
            requires
                m == abs_i(tp) * excess,
                abs_i(tp) == tp,
        ;
    } else {
        assert(tp * excess == -m) by (nonlinear_arith)
            requires
                m == abs_i(tp) * excess,
                abs_i(tp) == -tp,
        ;
        crate::fixed::lemma_tdiv_neg(m, dist);
    }
}

/// A dynamic stick's slid reference point stays between its old position and
/// the pointer, coordinate-wise, and therefore within the coordinate limit.
pub proof fn lemma_dynamic_start_bounds(start: IVec2, cur: IVec2, hx: int)
    requires
        start.in_bounds(POS_LIMIT as int),
        cur.in_bounds(POS_LIMIT as int),
        1 <= hx <= POS_LIMIT,
    ensures
        spec_dynamic_drag_start(start, cur, hx).in_bounds(POS_LIMIT as int),
{
    let tpx = cur.x - start.x;
    let tpy = cur.y - start.y;
    let tsq = tpx * tpx + tpy * tpy;
    assert(0 <= tpx * tpx && 0 <= tpy * tpy) by (nonlinear_arith);
    if tsq > hx * hx {
        let dist = isqrt_spec(tsq as nat) as int;
        lemma_isqrt_bounds(tsq as nat);
        assert(hx <= dist) by (nonlinear_arith)
            requires
                dist * dist <= tsq,
                tsq < (dist + 1) * (dist + 1),
                hx * hx < tsq,
                1 <= hx,
                0 <= dist,
        ;
        lemma_slide_bounds(tpx, dist, hx);
        lemma_slide_bounds(tpy, dist, hx);
    }
}

/// The clamped output value lies inside the disc of radius `SCALE`, component
/// bounds included.
pub proof fn lemma_value_bounds(diff_x: int, diff_y: int, hx: int, hy: int)
    requires
        -2 * POS_LIMIT <= diff_x <= 2 * POS_LIMIT,
        -2 * POS_LIMIT <= diff_y <= 2 * POS_LIMIT,
        1 <= hx <= POS_LIMIT,
        1 <= hy <= POS_LIMIT,
    ensures
        -SCALE <= spec_value_x(diff_x, diff_y, hx, hy) <= SCALE,
        -SCALE <= spec_value_y(diff_x, diff_y, hx, hy) <= SCALE,
        spec_value_x(diff_x, diff_y, hx, hy) * spec_value_x(diff_x, diff_y, hx, hy)
            + spec_value_y(diff_x, diff_y, hx, hy) * spec_value_y(diff_x, diff_y, hx, hy) <= SCALE
            * SCALE,
        spec_value(diff_x, diff_y, hx, hy).x as int == spec_value_x(diff_x, diff_y, hx, hy),
        spec_value(diff_x, diff_y, hx, hy).y as int == spec_value_y(diff_x, diff_y, hx, hy),
{
    let dx = spec_scaled_offset(diff_x, hx);
    let dy = spec_scaled_offset(diff_y, hy);
    crate::fixed::lemma_tdiv_abs(diff_x * SCALE, hx);
    crate::fixed::lemma_tdiv_abs(diff_y * SCALE, hy);
    vstd::arithmetic::div_mod::lemma_div_nonincreasing(abs_i(diff_x * SCALE), hx);
    vstd::arithmetic::div_mod::lemma_div_nonincreasing(abs_i(diff_y * SCALE), hy);
    let n = dx * dx + dy * dy;
    assert(0 <= dx * dx && 0 <= dy * dy) by (nonlinear_arith);
    let len = sqrt_ceil_spec(n as nat) as int;
    lemma_sqrt_ceil_bounds(n as nat);
    let den = spec_norm_den(dx, dy);
    assert(n <= den * den && abs_i(dx) <= den && abs_i(dy) <= den) by (nonlinear_arith)
        requires
            n == dx * dx + dy * dy,
            0 <= dx * dx,
            0 <= dy * dy,
            n <= len * len,
            0 <= len <= den,
    ;
    lemma_clamped_norm(dx, dy, den);
    crate::fixed::lemma_tdiv_abs(dx * SCALE, den);
    crate::fixed::lemma_tdiv_abs(dy * SCALE, den);
    assert(abs_i(dx * SCALE) == abs_i(dx) * SCALE && abs_i(dy * SCALE) == abs_i(dy) * SCALE
        && abs_i(dx) * SCALE <= den * SCALE && abs_i(dy) * SCALE <= den * SCALE)
        by (nonlinear_arith)
        requires
            abs_i(dx) <= den,
            abs_i(dy) <= den,
            0 <= abs_i(dx),
            0 <= abs_i(dy),
    ;
    vstd::arithmetic::div_mod::lemma_div_is_ordered(abs_i(dx) * SCALE, den * SCALE, den);
    vstd::arithmetic::div_mod::lemma_div_is_ordered(abs_i(dy) * SCALE, den * SCALE, den);
    vstd::arithmetic::div_mod::lemma_div_multiples_vanish(SCALE as int, den);
    let vx = spec_value_x(diff_x, diff_y, hx, hy);
    let vy = spec_value_y(diff_x, diff_y, hx, hy);
    assert(vy * vy == tdiv(dy * SCALE, den) * tdiv(dy * SCALE, den)) by (nonlinear_arith)
        requires
            vy == -tdiv(dy * SCALE, den),
    ;
}

/// One drag event keeps a well-formed stick well-formed.
pub proof fn lemma_step_preserves_wf(s: TouchStick, e: DragEvent)
    requires
        s.wf(),
        drag_event_wf(e),
    ensures
        spec_step(s, e).wf(),
{
    match e {
        DragEvent::Start { .. } => {},
        DragEvent::Drag { id, position } => {
            if s.drag_id == Some(id) {
                let hx = s.interactable_zone.spec_half_width();
                let hy = s.interactable_zone.spec_half_height();
                if hx != 0 && hy != 0 {
                    let start = if s.stick_type == TouchStickType::Dynamic {
                        spec_dynamic_drag_start(s.drag_start, position, hx)
                    } else {
                        s.drag_start
                    };
                    lemma_dynamic_start_bounds(s.drag_start, position, hx);
                    lemma_value_bounds(position.x - start.x, position.y - start.y, hx, hy);
                    let v = spec_value(position.x - start.x, position.y - start.y, hx, hy);
                    assert(v.x * v.x + v.y * v.y <= SCALE * SCALE) by (nonlinear_arith)
                        requires
                            v.x as int == spec_value_x(
                                position.x - start.x,
                                position.y - start.y,
                                hx,
                                hy,
                            ),
                            v.y as int == spec_value_y(
                                position.x - start.x,
                                position.y - start.y,
                                hx,
                                hy,
                            ),
                            spec_value_x(position.x - start.x, position.y - start.y, hx, hy)
                                * spec_value_x(position.x - start.x, position.y - start.y, hx, hy)
                                + spec_value_y(position.x - start.x, position.y - start.y, hx, hy)
                                * spec_value_y(position.x - start.x, position.y - start.y, hx, hy)
                                <= SCALE * SCALE,
                    ;
                }
            }
        },
        DragEvent::End { .. } => {},
    }
}

/// A whole batch of drag events keeps a well-formed stick well-formed.
pub proof fn lemma_run_preserves_wf(s: TouchStick, es: Seq<DragEvent>)
    requires
        s.wf(),
        drag_events_wf(es),
    ensures
        spec_run(s, es).wf(),
    decreases es.len(),
{
    if es.len() > 0 {
        assert(drag_events_wf(es.drop_last()));
        lemma_run_preserves_wf(s, es.drop_last());
        lemma_step_preserves_wf(spec_run(s, es.drop_last()), es.last());
    }
}

/// Applies one drag event to one stick and returns the press or release it
/// emits, if any.
pub fn process_drag_event(stick: &mut TouchStick, event: &DragEvent) -> (out: Option<
    TouchStickEvent,
>)
    requires
        old(stick).wf(),
        drag_event_wf(*event),
    ensures
        *final(stick) == spec_step(*old(stick), *event),
        final(stick).wf(),
        out == spec_step_event(*old(stick), *event),
{
    match *event {
        DragEvent::Start { id, position } => {
            let can_claim = match stick.drag_id {
                None => stick.interactable_zone.contains(position),
                Some(_) => false,
            };
            if can_claim {
                stick.drag_id = Some(id);
                stick.drag_start = position;
                stick.drag_position = position;
                stick.value = IVec2::zero();
                Some(
                    TouchStickEvent {
                        id: stick.id,
                        event: TouchStickEventType::Press,
                        value: IVec2::zero(),
                    },
                )
            } else {
                None
            }
        },
        DragEvent::Drag { id, position } => {
            let owned = match stick.drag_id {
                Some(owner) => owner == id,
                None => false,
            };
            if owned {
                stick.drag_position = position;
                let hx = stick.interactable_zone.half_width();
                let hy = stick.interactable_zone.half_height();
                if hx != 0 && hy != 0 {
                    if stick.stick_type == TouchStickType::Dynamic {
                        stick.base_position = position;
                        stick.drag_start = dynamic_drag_start(stick.drag_start, position, hx);
                    }
                    let diff_x = position.x - stick.drag_start.x;
                    let diff_y = position.y - stick.drag_start.y;
                    stick.value = compute_value(diff_x, diff_y, hx, hy);
                }
            }
            None
        },
        DragEvent::End { id } => {
            let owned = match stick.drag_id {
                Some(owner) => owner == id,
                None => false,
            };
            if owned {
                stick.drag_id = None;
                stick.base_position = IVec2::zero();
                stick.drag_start = IVec2::zero();
                stick.drag_position = IVec2::zero();
                stick.value = IVec2::zero();
                Some(
                    TouchStickEvent {
                        id: stick.id,
                        event: TouchStickEventType::Release,
                        value: IVec2::zero(),
                    },
                )
            } else {
                None
            }
        },
    }
}

/// Magnitude of a machine integer.
fn i64_abs(v: i64) -> (r: i64)
    requires
        i64::MIN < v,
    ensures
        r as int == abs_i(v as int),
{
    if v < 0 {
        -v
    } else {
        v
    }
}

/// Feeds one stick the whole batch of a tick's drag events, in order, then
/// runs the dead-zone check; returns everything the stick emitted.
pub fn update_stick_from_drag_events(stick: &mut TouchStick, events: &Vec<DragEvent>) -> (out: Vec<
    TouchStickEvent,
>)
    requires
        old(stick).wf(),
        drag_events_wf(events@),
    ensures
        *final(stick) == spec_run(*old(stick), events@),
        final(stick).wf(),
        out@ == spec_tick_events(*old(stick), events@),
{
    let mut out: Vec<TouchStickEvent> = Vec::new();
    let mut i: usize = 0;
    while i < events.len()
        invariant
            i <= events@.len(),
            old(stick).wf(),
            drag_events_wf(events@),
            stick.wf(),
            *stick == spec_run(*old(stick), events@.subrange(0, i as int)),
            out@ == spec_run_events(*old(stick), events@.subrange(0, i as int)),
        decreases events@.len() - i,
    {
        proof {
            assert(events@.subrange(0, i + 1 as int).drop_last() =~= events@.subrange(0, i as int));
            assert(events@.subrange(0, i + 1 as int).last() == events@[i as int]);
        }
        let ev = process_drag_event(stick, &events[i]);
        match ev {
            Some(e) => out.push(e),
            None => {},
        }
        proof {
            assert(out@ =~= spec_run_events(*old(stick), events@.subrange(0, i + 1 as int)));
        }
        i = i + 1;
    }
    proof {
        assert(events@.subrange(0, events@.len() as int) =~= events@);
    }
    let owned = match stick.drag_id {
        Some(_) => true,
        None => false,
    };
    if owned {
        let ax = i64_abs(stick.value.x);
        let ay = i64_abs(stick.value.y);
        if ax >= stick.dead_zone || ay >= stick.dead_zone {
            out.push(
                TouchStickEvent {
                    id: stick.id,
                    event: TouchStickEventType::Drag,
                    value: stick.value,
                },
            );
        }
    }
    proof {
        assert(out@ =~= spec_tick_events(*old(stick), events@));
    }
    out
}

/// Runs one tick of drag arbitration: every stick consumes the same batch of
/// drag events independently, in order, and the emitted stick events are
/// returned stick by stick.
pub fn update_sticks_from_drag_events(sticks: &mut Vec<TouchStick>, events: &Vec<DragEvent>) -> (out:
    Vec<TouchStickEvent>)
    requires
        forall|j: int| 0 <= j < old(sticks)@.len() ==> (#[trigger] old(sticks)@[j]).wf(),
        drag_events_wf(events@),
    ensures
        final(sticks)@.len() == old(sticks)@.len(),
        forall|j: int|
            0 <= j < old(sticks)@.len() ==> #[trigger] final(sticks)@[j] == spec_run(
                old(sticks)@[j],
                events@,
            ),
        forall|j: int| 0 <= j < old(sticks)@.len() ==> (#[trigger] final(sticks)@[j]).wf(),
        out@ == spec_all_tick_events(old(sticks)@, events@),
{
    let mut out: Vec<TouchStickEvent> = Vec::new();
    let mut i: usize = 0;
    while i < sticks.len()
        invariant
            i <= sticks@.len(),
            sticks@.len() == old(sticks)@.len(),
            drag_events_wf(events@),
            forall|j: int| 0 <= j < old(sticks)@.len() ==> (#[trigger] old(sticks)@[j]).wf(),
            forall|j: int| i <= j < sticks@.len() ==> #[trigger] sticks@[j] == old(sticks)@[j],
            forall|j: int|
                0 <= j < i ==> #[trigger] sticks@[j] == spec_run(old(sticks)@[j], events@),
            forall|j: int| 0 <= j < i ==> (#[trigger] sticks@[j]).wf(),
            out@ == spec_all_tick_events(old(sticks)@.subrange(0, i as int), events@),
        decreases sticks@.len() - i,
    {
        proof {
            assert(old(sticks)@.subrange(0, i + 1 as int).drop_last() =~= old(sticks)@.subrange(
                0,
                i as int,
            ));
            assert(old(sticks)@.subrange(0, i + 1 as int).last() == old(sticks)@[i as int]);
        }
        let mut evs = update_stick_from_drag_events(&mut sticks[i], events);
        out.append(&mut evs);
        i = i + 1;
    }
    proof {
        assert(old(sticks)@.subrange(0, old(sticks)@.len() as int) =~= old(sticks)@);
    }
    out
}

} // verus!
