//! Screen placement of the stick's knob and outline, and the per-tick zone
//! refresh from the layout system.

use crate::fixed::{tdiv, POS_LIMIT, SCALE};
use crate::geom::{IVec2, Rect};
use crate::stick::{TouchStick, TouchStickType};
use vstd::prelude::*;

verus! {

/// Where the stick's outline is drawn: a fixed stick sits at its resting
/// center; a floating stick sits at its resting center while idle and at the
/// drag start while held; a dynamic stick follows its moving base.
pub open spec fn spec_stick_anchor(s: TouchStick, resting_center: IVec2) -> IVec2 {
    match s.stick_type {
        TouchStickType::Fixed => resting_center,
        TouchStickType::Floating => if s.drag_id is None {
            resting_center
        } else {
            s.drag_start
        },
        TouchStickType::Dynamic => s.base_position,
    }
}

/// Picks the on-screen anchor of the stick's outline for this frame.
pub fn stick_anchor(stick: &TouchStick, resting_center: IVec2) -> (a: IVec2)
    ensures
        a == spec_stick_anchor(*stick, resting_center),
{
    match stick.stick_type {
        TouchStickType::Fixed => resting_center,
        TouchStickType::Floating => {
            match stick.drag_id {
                None => resting_center,
                Some(_) => stick.drag_start,
            }
        },
        TouchStickType::Dynamic => stick.base_position,
    }
}

/// One component of the knob offset: the value scaled onto the knob's travel
/// radius, truncating toward zero.
fn scale_by_radius(v: i64, radius: i64) -> (q: i64)
    requires
        -SCALE <= v <= SCALE,
        0 <= radius <= POS_LIMIT,
    ensures
        q as int == tdiv(v * radius, SCALE as int),
        -radius <= q <= radius,
{
    let neg = v < 0;
    let mag: u64 = if neg {
        (-v) as u64
    } else {
        v as u64
    };
    proof {
        assert(0 <= mag * (radius as u64) <= 10000u64 * 0x100_0000_0000u64) by (nonlinear_arith)
            requires
                mag <= 10000u64,
                radius as u64 <= 0x100_0000_0000u64,
        ;
    }
    let num = mag * (radius as u64);
    let q = num / (SCALE as u64);
    proof {
        assert(num as int <= (SCALE as int) * (radius as int)) by (nonlinear_arith)
            requires
                num as int == (mag as int) * (radius as int),
                mag as int <= SCALE as int,
                0 <= radius as int,
        ;
        vstd::arithmetic::div_mod::lemma_div_is_ordered(
            num as int,
            (SCALE as int) * (radius as int),
            SCALE as int,
        );
        vstd::arithmetic::div_mod::lemma_div_multiples_vanish(radius as int, SCALE as int);
        vstd::arithmetic::div_mod::lemma_div_pos_is_pos(num as int, SCALE as int);
        if neg {
            assert((v as int) * (radius as int) == -((mag as int) * (radius as int)))
                by (nonlinear_arith)
                requires
                    mag as int == -(v as int),
            ;
            crate::fixed::lemma_tdiv_neg((mag as int) * (radius as int), SCALE as int);
        } else {
            assert((v as int) * (radius as int) == (mag as int) * (radius as int))
                by (nonlinear_arith)
                requires
                    mag as int == v as int,
            ;
        }
    }
    if neg {
        -(q as i64)
    } else {
        q as i64
    }
}

/// The knob's offset from the stick anchor: the output value scaled by the
/// knob's travel radius, with the y axis flipped back into y-down screen
/// space.
pub fn knob_offset(value: IVec2, radius: i64) -> (p: IVec2)
    requires
        -SCALE <= value.x <= SCALE,
        -SCALE <= value.y <= SCALE,
        0 <= radius <= POS_LIMIT,
    ensures
        p.x as int == tdiv(value.x * radius, SCALE as int),
        p.y as int == -tdiv(value.y * radius, SCALE as int),
        -radius <= p.x <= radius,
        -radius <= p.y <= radius,
{
    let px = scale_by_radius(value.x, radius);
    let py = scale_by_radius(value.y, radius);
    IVec2 { x: px, y: -py }
}

/// The knob's position on screen: the stick's anchor displaced by the
/// value-scaled knob offset.
pub fn knob_position(stick: &TouchStick, resting_center: IVec2, radius: i64) -> (p: IVec2)
    requires
        stick.wf(),
        resting_center.in_bounds(POS_LIMIT as int),
        0 <= radius <= POS_LIMIT,
    ensures
        p.x as int == spec_stick_anchor(*stick, resting_center).x + tdiv(
            stick.value.x * radius,
            SCALE as int,
        ),
        p.y as int == spec_stick_anchor(*stick, resting_center).y - tdiv(
            stick.value.y * radius,
            SCALE as int,
        ),
{
    let a = stick_anchor(stick, resting_center);
    let o = knob_offset(stick.value, radius);
    IVec2 { x: a.x + o.x, y: a.y + o.y }
}

/// A layout node, given as the center and size of a stick's on-screen area;
/// the zone it spans stays within the coordinate limit.
pub open spec fn node_wf(node: (IVec2, IVec2)) -> bool {
    &&& 0 <= node.1.x
    &&& 0 <= node.1.y
    &&& -POS_LIMIT <= node.0.x - node.1.x / 2
    &&& node.0.x + node.1.x / 2 <= POS_LIMIT
    &&& -POS_LIMIT <= node.0.y - node.1.y / 2
    &&& node.0.y + node.1.y / 2 <= POS_LIMIT
}

/// Refreshes every stick's interactable zone from its layout node, pairing
/// sticks and nodes by index; nothing else about a stick changes.
pub fn map_input_zones_from_ui_nodes(sticks: &mut Vec<TouchStick>, nodes: &Vec<(IVec2, IVec2)>)
    requires
        old(sticks)@.len() == nodes@.len(),
        forall|i: int| 0 <= i < old(sticks)@.len() ==> (#[trigger] old(sticks)@[i]).wf(),
        forall|i: int| 0 <= i < nodes@.len() ==> node_wf(#[trigger] nodes@[i]),
    ensures
        final(sticks)@.len() == old(sticks)@.len(),
        forall|i: int|
            0 <= i < old(sticks)@.len() ==> #[trigger] final(sticks)@[i] == (TouchStick {
                interactable_zone: Rect::spec_from_center_size(nodes@[i].0, nodes@[i].1),
                ..old(sticks)@[i]
            }),
        forall|i: int| 0 <= i < old(sticks)@.len() ==> (#[trigger] final(sticks)@[i]).wf(),
{
    let mut i: usize = 0;
    while i < sticks.len()
        invariant
            i <= sticks@.len(),
            sticks@.len() == old(sticks)@.len(),
            nodes@.len() == old(sticks)@.len(),
            forall|j: int| 0 <= j < old(sticks)@.len() ==> (#[trigger] old(sticks)@[j]).wf(),
            forall|j: int| 0 <= j < nodes@.len() ==> node_wf(#[trigger] nodes@[j]),
            forall|j: int| i <= j < sticks@.len() ==> #[trigger] sticks@[j] == old(sticks)@[j],
            forall|j: int|
                0 <= j < i ==> #[trigger] sticks@[j] == (TouchStick {
                    interactable_zone: Rect::spec_from_center_size(nodes@[j].0, nodes@[j].1),
                    ..old(sticks)@[j]
                }),
            forall|j: int| 0 <= j < i ==> (#[trigger] sticks@[j]).wf(),
        decreases sticks@.len() - i,
    {
        let (center, size) = nodes[i];
        let zone = Rect::from_center_size(center, size);
        let stick = &mut sticks[i];
        stick.set_interactable_zone(zone);
        i = i + 1;
    }
}

} // verus!
