//! Emitter configuration: the raw optional record handed in by the host
//! and the resolved immutable snapshot one emitter runs on.
use vstd::prelude::*;
use crate::num::FULL_TURN;
use crate::num::SIZE_LIMIT;
use crate::num::SLEEP_LIMIT;
use crate::num::SPEED_LIMIT;
use crate::num::clamp_mag_spec;
use crate::num::clamp_range_spec;
use crate::num::clamp_mag;
use crate::num::clamp_range;
use crate::num::clamp_range_32;
use crate::shot::ShotType;
use crate::shot::ShotBehavior;
use crate::shot::shot_type_of;
use crate::shot::shot_behavior_of;
use crate::shot::behaviors_wf;
use crate::shot::resolve_shot_type;
use crate::shot::resolve_shot_behavior;
use crate::disk::DiskType;
use crate::disk::DiskColor;
use crate::disk::disk_type_of;
use crate::disk::disk_color_of;
use crate::disk::resolve_disk_type;
use crate::disk::resolve_disk_color;

verus! {

/// The raw per-emitter configuration record from the host. Geometry is in
/// milli-units and milli-degrees; absent fields take documented defaults.
#[derive(Debug, Clone)]
pub struct SettingOptions {
    pub width: i64,
    pub height: i64,
    /// Total length of one cycle, in milliseconds.
    pub iteration_ms: u32,
    /// Start of the emitter's window, in frames of the cycle.
    pub start_at: u32,
    /// End of the emitter's window, in frames of the cycle.
    pub end_at: u32,
    pub disk_size: Option<i64>,
    pub shot_type: Option<u32>,
    pub disk_type: Option<u32>,
    pub disk_color: Option<u32>,
    pub shot_speed: Option<i64>,
    pub shot_way_num: Option<u32>,
    /// Interval between bursts, in milliseconds.
    pub shot_interval: Option<u32>,
    pub shot_behavior: Option<Vec<u32>>,
    /// Speed change per frame, in percent.
    pub speed_change_per: Option<u32>,
    pub speed_change_interval: Option<i64>,
    pub x_coordinate: Option<i64>,
    pub y_coordinate: Option<i64>,
    pub reflect_count: Option<u32>,
    /// Frames between naps of a sleeping entity.
    pub sleep_interval: Option<i32>,
    /// Nap length of a sleeping entity, in frames.
    pub sleep_timeout: Option<i32>,
    /// Angular drift per burst, in milli-degrees.
    pub degree_change_by: Option<i64>,
    /// Gravity direction as a quarter-turn count.
    pub gravity_direction: Option<u32>,
    /// Gravity pull per frame, in percent of the entity's speed.
    pub gravity_change_per: Option<u32>,
}

/// The resolved, immutable snapshot one emitter runs on. Replaced
/// wholesale on update, never mutated field by field.
#[derive(Debug, Clone)]
pub struct Setting {
    pub iteration_ms: u32,
    pub start_at: u32,
    pub end_at: u32,
    pub disk_size: i64,
    pub disk_type: DiskType,
    pub disk_color: DiskColor,
    pub shot_type: ShotType,
    pub shot_behavior: Vec<ShotBehavior>,
    pub shot_speed: i64,
    pub shot_way_num: u32,
    pub shot_interval: u32,
    pub x_coordinate: i64,
    pub y_coordinate: i64,
    pub degree_change_by: i64,
    pub reflect_count: Option<u32>,
    pub speed_change_per: Option<u32>,
    pub speed_change_interval: Option<i64>,
    pub sleep_interval: i32,
    pub sleep_timeout: i32,
    pub gravity_direction: Option<u32>,
    pub gravity_change_per: Option<u32>,
}

/// The behavior template list a raw record resolves to: the decoded
/// codes, or a single `Normal` when the field is absent.
pub open spec fn resolved_behaviors(codes: Option<Vec<u32>>) -> Seq<ShotBehavior> {
    match codes {
        Some(v) => Seq::new(v@.len(), |i: int| shot_behavior_of(v@[i])),
        None => seq![ShotBehavior::Normal],
    }
}

/// `s` is exactly the snapshot record `options` resolves to: absent
/// fields take their defaults (size 4.0, speed 1.0, 6 ways, 500 ms
/// interval, one `Normal` behavior, origin at the world center), and
/// out-of-range values are clamped rather than rejected.
pub open spec fn resolves(options: SettingOptions, s: Setting) -> bool {
    &&& s.iteration_ms == options.iteration_ms
    &&& s.start_at == options.start_at
    &&& s.end_at == options.end_at
    &&& s.disk_size == clamp_range_spec(
        (match options.disk_size {
            Some(v) => v as int,
            None => 4000int,
        }),
        0,
        SIZE_LIMIT as int,
    )
    &&& s.disk_type == disk_type_of(
        match options.disk_type {
            Some(v) => v,
            None => 0,
        },
    )
    &&& s.disk_color == disk_color_of(
        match options.disk_color {
            Some(v) => v,
            None => 1,
        },
    )
    &&& s.shot_type == shot_type_of(
        match options.shot_type {
            Some(v) => v,
            None => 0,
        },
    )
    &&& s.shot_behavior@ == resolved_behaviors(options.shot_behavior)
    &&& s.shot_speed == clamp_mag_spec(
        (match options.shot_speed {
            Some(v) => v as int,
            None => 1000int,
        }),
        SPEED_LIMIT as int,
    )
    &&& s.shot_way_num == (match options.shot_way_num {
        Some(v) => v,
        None => 6u32,
    })
    &&& s.shot_interval == (match options.shot_interval {
        Some(v) => v,
        None => 500u32,
    })
    &&& s.x_coordinate == (match options.x_coordinate {
        Some(x) => x as int,
        None => (if options.width >= 0 {
            options.width as int
        } else {
            0int
        }) / 2,
    })
    &&& s.y_coordinate == (match options.y_coordinate {
        Some(y) => y as int,
        None => (if options.height >= 0 {
            options.height as int
        } else {
            0int
        }) / 2,
    })
    &&& s.degree_change_by == clamp_mag_spec(
        (match options.degree_change_by {
            Some(v) => v as int,
            None => 0int,
        }),
        FULL_TURN as int,
    )
    &&& s.reflect_count == options.reflect_count
    &&& s.speed_change_per == options.speed_change_per
    &&& s.speed_change_interval == options.speed_change_interval
    &&& s.sleep_interval == clamp_range_spec(
        (match options.sleep_interval {
            Some(v) => v as int,
            None => 0int,
        }),
        0,
        SLEEP_LIMIT as int,
    )
    &&& s.sleep_timeout == clamp_range_spec(
        (match options.sleep_timeout {
            Some(v) => v as int,
            None => 0int,
        }),
        0,
        SLEEP_LIMIT as int,
    )
    &&& s.gravity_direction == options.gravity_direction
    &&& s.gravity_change_per == options.gravity_change_per
}

impl Setting {
    /// The clamped fields are within the fixed-point bounds.
    pub open spec fn wf(self) -> bool {
        &&& 0 <= self.disk_size <= SIZE_LIMIT
        &&& -SPEED_LIMIT <= self.shot_speed <= SPEED_LIMIT
        &&& -FULL_TURN <= self.degree_change_by <= FULL_TURN
        &&& 0 <= self.sleep_interval <= SLEEP_LIMIT
        &&& 0 <= self.sleep_timeout <= SLEEP_LIMIT
        &&& behaviors_wf(self.shot_behavior@)
    }

    /// Resolves a raw record into the snapshot an emitter runs on.
    pub fn new(options: &SettingOptions) -> (s: Setting)
        ensures
            s.wf(),
            resolves(*options, s),
    {
        let half_width: i64 = (if options.width >= 0 { options.width } else { 0 }) / 2;
        let half_height: i64 = (if options.height >= 0 { options.height } else { 0 }) / 2;
        let shot_behavior = resolve_behavior_codes(&options.shot_behavior);
        Setting {
            iteration_ms: options.iteration_ms,
            start_at: options.start_at,
            end_at: options.end_at,
            disk_size: clamp_range(options.disk_size.unwrap_or(4000), 0, SIZE_LIMIT),
            disk_type: resolve_disk_type(options.disk_type.unwrap_or(0)),
            disk_color: resolve_disk_color(options.disk_color.unwrap_or(1)),
            shot_type: resolve_shot_type(options.shot_type.unwrap_or(0)),
            shot_behavior,
            shot_speed: clamp_mag(options.shot_speed.unwrap_or(1000), SPEED_LIMIT),
            shot_way_num: options.shot_way_num.unwrap_or(6),
            shot_interval: options.shot_interval.unwrap_or(500),
            x_coordinate: options.x_coordinate.unwrap_or(half_width),
            y_coordinate: options.y_coordinate.unwrap_or(half_height),
            degree_change_by: clamp_mag(options.degree_change_by.unwrap_or(0), FULL_TURN),
            reflect_count: options.reflect_count,
            speed_change_per: options.speed_change_per,
            speed_change_interval: options.speed_change_interval,
            sleep_interval: clamp_range_32(options.sleep_interval.unwrap_or(0), 0, SLEEP_LIMIT),
            sleep_timeout: clamp_range_32(options.sleep_timeout.unwrap_or(0), 0, SLEEP_LIMIT),
            gravity_direction: options.gravity_direction,
            gravity_change_per: options.gravity_change_per,
        }
    }
}

/// Decodes a list of behavior codes, or yields the single default
/// `Normal` when none was given.
fn resolve_behavior_codes(codes: &Option<Vec<u32>>) -> (r: Vec<ShotBehavior>)
    ensures
        r@ == resolved_behaviors(*codes),
        behaviors_wf(r@),
{
    match codes {
        Some(v) => {
            let mut out: Vec<ShotBehavior> = Vec::new();
            let n = v.len();
            let mut i: usize = 0;
            while i < n
                invariant
                    n == v.len(),
                    0 <= i <= n,
                    out@.len() == i,
                    forall|j: int| 0 <= j < i ==> out@[j] == shot_behavior_of(v@[j]),
                decreases n - i,
            {
                out.push(resolve_shot_behavior(v[i]));
                i = i + 1;
            }
            proof {
                assert(out@ =~= resolved_behaviors(*codes));
                assert forall|j: int| 0 <= j < out@.len() implies crate::shot::behavior_wf(
                    #[trigger] out@[j],
                ) by {
                    assert(out@[j] == shot_behavior_of(v@[j]));
                }
            }
            out
        },
        None => {
            let out = vec![ShotBehavior::Normal];
            proof {
                assert(out@ =~= resolved_behaviors(*codes));
            }
            out
        },
    }
}

} // verus!
