//! The persistent per-stick record and its well-formedness invariant.

use crate::fixed::{POS_LIMIT, SCALE};
use crate::geom::{IVec2, Rect};
use vstd::prelude::*;

verus! {

/// Identifier of one logical stick, chosen by the embedding application.
#[derive(Clone, Copy, Debug, PartialEq, Eq, Hash, Structural)]
pub struct StickId(pub u64);

/// How the stick is positioned on screen.
#[derive(Clone, Copy, Debug, PartialEq, Eq, Structural)]
pub enum TouchStickType {
    /// Static position: drag offsets are measured from where the drag began
    /// and the reference point never moves.
    Fixed,
    /// The reference point snaps to wherever the pointer first touched down
    /// inside the zone and stays there until release.
    Floating,
    /// The reference point itself follows the pointer once the pointer moves
    /// farther than the zone's horizontal half-extent from it.
    Dynamic,
}

impl Default for TouchStickType {
    /// Sticks float by default.
    fn default() -> (r: Self)
        ensures
            r == TouchStickType::Floating,
    {
        TouchStickType::Floating
    }
}

/// The creation-time configuration of a stick: everything that survives a
/// save/restore round trip. Replaying the same drag events against a stick
/// restored from its configuration reproduces the same value trace.
#[derive(Clone, Copy, Debug, PartialEq, Eq, Structural)]
pub struct StickConfig {
    /// Identifier of the stick.
    pub id: StickId,
    /// Positioning behavior.
    pub stick_type: TouchStickType,
    /// Minimum output magnitude, scaled by `SCALE`, below which no drag event
    /// fires.
    pub dead_zone: i64,
    /// Activation distance in input-space units.
    pub radius: i64,
}

/// One virtual joystick: configuration, the zone where it can be engaged,
/// and the state of the drag currently driving it.
#[derive(Clone, Copy, Debug)]
pub struct TouchStick {
    /// Identifier used to route events.
    pub id: StickId,
    /// The pointer currently driving this stick; `None` when idle.
    pub drag_id: Option<u64>,
    /// Axis values whose magnitude stays under `dead_zone` (scaled by
    /// `SCALE`) suppress drag events.
    pub dead_zone: i64,
    /// The moving reference point used only by `TouchStickType::Dynamic`;
    /// zero when idle.
    pub base_position: IVec2,
    /// The position used as the zero reference for offset computation; zero
    /// when idle.
    pub drag_start: IVec2,
    /// The latest raw pointer position while dragging; zero when idle.
    pub drag_position: IVec2,
    /// The output value: magnitude at most `SCALE` (which stands for `1.0`),
    /// y-up.
    pub value: IVec2,
    /// Where the stick can be engaged, in input space (y-down); refreshed by
    /// the layout collaborator every tick.
    pub interactable_zone: Rect,
    /// Activation distance in input-space units.
    pub radius: i64,
    /// Positioning behavior.
    pub stick_type: TouchStickType,
}

impl TouchStick {
    /// An idle stick carries no leftover drag data.
    pub open spec fn is_idle_zeroed(self) -> bool {
        &&& self.base_position == IVec2::spec_zero()
        &&& self.drag_start == IVec2::spec_zero()
        &&& self.drag_position == IVec2::spec_zero()
        &&& self.value == IVec2::spec_zero()
    }

    /// Well-formedness: the zone and all recorded positions lie within the
    /// coordinate limit, the configuration is in range, the output value
    /// stays inside the unit disc (radius `SCALE`), and an unowned stick is
    /// fully zeroed.
    pub open spec fn wf(self) -> bool {
        &&& self.interactable_zone.wf()
        &&& self.base_position.in_bounds(POS_LIMIT as int)
        &&& self.drag_start.in_bounds(POS_LIMIT as int)
        &&& self.drag_position.in_bounds(POS_LIMIT as int)
        &&& 0 <= self.dead_zone <= SCALE
        &&& 0 <= self.radius <= POS_LIMIT
        &&& -SCALE <= self.value.x <= SCALE
        &&& -SCALE <= self.value.y <= SCALE
        &&& self.value.x * self.value.x + self.value.y * self.value.y <= SCALE * SCALE
        &&& self.drag_id is None ==> self.is_idle_zeroed()
    }

    /// The stick a fresh construction yields: idle, floating, no dead zone,
    /// engageable anywhere until layout arrives.
    pub open spec fn spec_new(id: StickId) -> TouchStick {
        TouchStick {
            id,
            drag_id: None,
            dead_zone: 0,
            base_position: IVec2::spec_zero(),
            drag_start: IVec2::spec_zero(),
            drag_position: IVec2::spec_zero(),
            value: IVec2::spec_zero(),
            interactable_zone: Rect {
                min: IVec2 { x: (-POS_LIMIT) as i64, y: (-POS_LIMIT) as i64 },
                max: IVec2 { x: POS_LIMIT, y: POS_LIMIT },
            },
            radius: 75,
            stick_type: TouchStickType::Floating,
        }
    }

    /// Creates a new stick with the given id and default configuration.
    pub fn new(id: StickId) -> (s: TouchStick)
        ensures
            s == TouchStick::spec_new(id),
            s.wf(),
    {
        TouchStick {
            id,
            drag_id: None,
            dead_zone: 0,
            base_position: IVec2::zero(),
            drag_start: IVec2::zero(),
            drag_position: IVec2::zero(),
            value: IVec2::zero(),
            interactable_zone: Rect::everywhere(),
            radius: 75,
            stick_type: TouchStickType::Floating,
        }
    }

    /// The stick's saved configuration.
    pub open spec fn spec_config(self) -> StickConfig {
        StickConfig {
            id: self.id,
            stick_type: self.stick_type,
            dead_zone: self.dead_zone,
            radius: self.radius,
        }
    }

    /// Extracts the fields that survive a save/restore round trip.
    pub fn config(&self) -> (c: StickConfig)
        ensures
            c == self.spec_config(),
    {
        StickConfig {
            id: self.id,
            stick_type: self.stick_type,
            dead_zone: self.dead_zone,
            radius: self.radius,
        }
    }

    /// Builds an idle stick from a saved configuration; reading the
    /// configuration back yields exactly the input.
    pub fn from_config(config: StickConfig) -> (s: TouchStick)
        requires
            0 <= config.dead_zone <= SCALE,
            0 <= config.radius <= POS_LIMIT,
        ensures
            s == (TouchStick {
                dead_zone: config.dead_zone,
                radius: config.radius,
                stick_type: config.stick_type,
                ..TouchStick::spec_new(config.id)
            }),
            s.spec_config() == config,
            s.wf(),
            s.drag_id is None,
    {
        let mut s = TouchStick::new(config.id);
        s.dead_zone = config.dead_zone;
        s.radius = config.radius;
        s.stick_type = config.stick_type;
        s
    }

    /// Installs the zone reported by the layout system for this tick.
    pub fn set_interactable_zone(&mut self, zone: Rect)
        requires
            old(self).wf(),
            zone.wf(),
        ensures
            *final(self) == (TouchStick { interactable_zone: zone, ..*old(self) }),
            final(self).wf(),
    {
        self.interactable_zone = zone;
    }
}

impl Default for TouchStick {
    /// An idle floating stick with the zero identifier.
    fn default() -> (s: Self)
        ensures
            s == TouchStick::spec_new(StickId(0)),
            s.wf(),
    {
        TouchStick::new(StickId(0))
    }
}

impl From<StickId> for TouchStick {
    /// Creates a new stick with the given id and default configuration.
    fn from(id: StickId) -> (s: TouchStick)
        ensures
            s == TouchStick::spec_new(id),
    {
        TouchStick::new(id)
    }
}

impl vstd::std_specs::convert::FromSpecImpl<StickId> for TouchStick {
    open spec fn obeys_from_spec() -> bool {
        true
    }

    open spec fn from_spec(id: StickId) -> TouchStick {
        TouchStick::spec_new(id)
    }
}

} // verus!
