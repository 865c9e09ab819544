//! Emission patterns and per-frame behavior modifiers carried by entities.
use vstd::prelude::*;
use crate::num::RATE_LIMIT;
use crate::num::SLEEP_LIMIT;

verus! {

/// The emission pattern of an emitter: a random spray, an evenly spaced
/// circle, or a fan of rays.
#[derive(Debug, Clone, Copy, PartialEq, Eq, Structural)]
pub enum ShotType {
    Random,
    Circle,
    Linear,
}

/// The pattern encoded by a configuration number.
pub open spec fn shot_type_of(num: u32) -> ShotType {
    if num == 1 {
        ShotType::Circle
    } else if num == 2 {
        ShotType::Linear
    } else {
        ShotType::Random
    }
}

/// Decodes an emission pattern from its configuration number; unknown
/// numbers fall back to `Random`.
pub fn resolve_shot_type(num: u32) -> (r: ShotType)
    ensures
        r == shot_type_of(num),
{
    match num {
        1 => ShotType::Circle,
        2 => ShotType::Linear,
        _ => ShotType::Random,
    }
}

/// A per-frame modifier of an entity's motion or lifecycle. Rates are in
/// milli-fractions (100 = 10 percent), sleep parameters in frames.
#[derive(Debug, Clone, Copy, PartialEq, Eq, Structural)]
pub enum ShotBehavior {
    /// No effect.
    Normal,
    /// Grows the speed by a rate on every frame the behavior is
    /// present, with no age gating: (change interval, rate). The
    /// interval is carried configuration that the step does not read.
    SpeedUp(i64, i64),
    /// Shrinks the speed by a rate on every frame the behavior is
    /// present, with no age gating: (change interval, rate).
    SpeedDown(i64, i64),
    /// Bounces off the world edges while the budget lasts.
    Reflect(Option<u32>),
    /// Re-aims at a fresh uniformly random angle each frame.
    Random,
    /// Freezes the entity: (interval between naps, nap length in frames).
    Sleep(i32, i32),
    /// Adds a constant-direction pull to the velocity: (quarter-turn
    /// direction, rate of the entity's own speed).
    Gravity(u32, i64),
}

/// The behavior template encoded by a configuration number.
pub open spec fn shot_behavior_of(num: u32) -> ShotBehavior {
    if num == 1 {
        ShotBehavior::SpeedUp(0, 0)
    } else if num == 2 {
        ShotBehavior::SpeedDown(0, 0)
    } else if num == 3 {
        ShotBehavior::Reflect(None)
    } else if num == 4 {
        ShotBehavior::Random
    } else if num == 5 {
        ShotBehavior::Sleep(0, 0)
    } else if num == 6 {
        ShotBehavior::Gravity(0, 100)
    } else {
        ShotBehavior::Normal
    }
}

/// Decodes a behavior template from its configuration number; unknown
/// numbers fall back to `Normal`.
pub fn resolve_shot_behavior(num: u32) -> (r: ShotBehavior)
    ensures
        r == shot_behavior_of(num),
{
    match num {
        1 => ShotBehavior::SpeedUp(0, 0),
        2 => ShotBehavior::SpeedDown(0, 0),
        3 => ShotBehavior::Reflect(None),
        4 => ShotBehavior::Random,
        5 => ShotBehavior::Sleep(0, 0),
        6 => ShotBehavior::Gravity(0, 100),
        _ => ShotBehavior::Normal,
    }
}

/// A behavior whose parameters are within the fixed-point bounds.
pub open spec fn behavior_wf(b: ShotBehavior) -> bool {
    match b {
        ShotBehavior::Normal => true,
        ShotBehavior::SpeedUp(iv, rate) => 0 <= iv && 0 <= rate <= RATE_LIMIT,
        ShotBehavior::SpeedDown(iv, rate) => 0 <= iv && 0 <= rate <= RATE_LIMIT,
        ShotBehavior::Reflect(_) => true,
        ShotBehavior::Random => true,
        ShotBehavior::Sleep(iv, nap) => 0 <= iv && 0 <= nap <= SLEEP_LIMIT,
        ShotBehavior::Gravity(_, rate) => 0 <= rate <= RATE_LIMIT,
    }
}

/// Every behavior in the list is within bounds.
pub open spec fn behaviors_wf(s: Seq<ShotBehavior>) -> bool {
    forall|i: int| 0 <= i < s.len() ==> behavior_wf(#[trigger] s[i])
}

} // verus!
