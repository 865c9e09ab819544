//! The per-frame simulation step for one entity: aging, the behavior
//! modifiers in list order (sleep gating, speed change, gravity, random
//! re-aim), displacement, and boundary resolution (reflect while the
//! bounce budget lasts, cull once fully outside).
use vstd::prelude::*;
use crate::num::FULL_TURN;
use crate::num::SPEED_LIMIT;
use crate::num::clip64;
use crate::num::clamp_mag_spec;
use crate::num::clamp_range_spec;
use crate::num::scale_mul;
use crate::num::mul_scaled;
use crate::num::sat_add;
use crate::num::sat_sub;
use crate::num::clamp_mag;
use crate::shot::ShotBehavior;
use crate::shot::behavior_wf;
use crate::disk::Disk;
use crate::vec2d::Vec2d;
use crate::vec2d::vel_x_spec;
use crate::vec2d::vel_y_spec;
use crate::rng::random_angle_mdeg;

verus! {

/// The nap-counter change one `Sleep(interval, nap)` behavior causes: a
/// fresh nap on every `interval`-th frame of the entity's life, else one
/// frame of an ongoing nap spent; an interval of zero disables it.
pub open spec fn sleep_delta(age: int, sleep_time: int, interval: int, nap: int) -> int {
    if interval == 0 {
        0
    } else if age % interval == 0 {
        nap
    } else if sleep_time > 0 {
        -1
    } else {
        0
    }
}

/// The pull direction of a gravity behavior, a quarter turn per step.
pub open spec fn gravity_angle(dir: int) -> int {
    dir * 90000
}

/// One behavior modifier applied to the entity, with `r` the frame's
/// random angle draw.
pub open spec fn apply_behavior_spec(d: Disk, b: ShotBehavior, r: int) -> Disk {
    match b {
        ShotBehavior::Normal => d,
        ShotBehavior::Reflect(_) => d,
        ShotBehavior::Sleep(interval, nap) => Disk {
            sleep_time: clamp_range_spec(
                d.sleep_time + sleep_delta(d.age as int, d.sleep_time as int, interval as int, nap as int),
                i32::MIN as int,
                i32::MAX as int,
            ) as i32,
            ..d
        },
        ShotBehavior::SpeedUp(_, rate) => {
            let sp = clamp_mag_spec(
                d.speed + scale_mul(d.speed as int, rate as int),
                SPEED_LIMIT as int,
            );
            Disk {
                speed: sp as i64,
                vec2d: Vec2d {
                    x: vel_x_spec(d.angle as int, sp) as i64,
                    y: vel_y_spec(d.angle as int, sp) as i64,
                },
                ..d
            }
        },
        ShotBehavior::SpeedDown(_, rate) => {
            let sp = clamp_mag_spec(
                d.speed - scale_mul(d.speed as int, rate as int),
                SPEED_LIMIT as int,
            );
            Disk {
                speed: sp as i64,
                vec2d: Vec2d {
                    x: vel_x_spec(d.angle as int, sp) as i64,
                    y: vel_y_spec(d.angle as int, sp) as i64,
                },
                ..d
            }
        },
        ShotBehavior::Gravity(dir, rate) => {
            let mag = clamp_mag_spec(scale_mul(d.speed as int, rate as int), SPEED_LIMIT as int);
            Disk {
                vec2d: Vec2d {
                    x: clip64(d.vec2d.x + vel_x_spec(gravity_angle(dir as int), mag)) as i64,
                    y: clip64(d.vec2d.y + vel_y_spec(gravity_angle(dir as int), mag)) as i64,
                },
                ..d
            }
        },
        ShotBehavior::Random => Disk {
            angle: r as i64,
            vec2d: Vec2d {
                x: vel_x_spec(r, d.speed as int) as i64,
                y: vel_y_spec(r, d.speed as int) as i64,
            },
            ..d
        },
    }
}

/// The first `k` behaviors of the entity's own list applied in order.
pub open spec fn apply_behaviors_upto(d: Disk, r: int, k: int) -> Disk
    decreases k,
{
    if k <= 0 {
        d
    } else {
        apply_behavior_spec(apply_behaviors_upto(d, r, k - 1), d.behavior@[k - 1], r)
    }
}

/// The whole behavior list applied in order.
pub open spec fn behaviors_applied(d: Disk, r: int) -> Disk {
    apply_behaviors_upto(d, r, d.behavior@.len() as int)
}

/// The entity one frame older, wrapping at the integer range.
pub open spec fn aged(d: Disk) -> Disk {
    Disk { age: ((d.age + 1) % 0x100000000) as u32, ..d }
}

/// The first `Reflect` behavior of the list, searched from `i`.
pub open spec fn first_reflect_from(s: Seq<ShotBehavior>, i: int) -> Option<ShotBehavior>
    decreases s.len() - i,
{
    if i < 0 || i >= s.len() {
        None
    } else {
        match s[i] {
            ShotBehavior::Reflect(n) => Some(ShotBehavior::Reflect(n)),
            _ => first_reflect_from(s, i + 1),
        }
    }
}

/// The list's first `Reflect` behavior carries a bounce budget.
pub open spec fn reflect_tag_active(s: Seq<ShotBehavior>) -> bool {
    first_reflect_from(s, 0) matches Some(ShotBehavior::Reflect(Some(_)))
}

/// The entity reflects this frame: its budget is positive and its first
/// `Reflect` behavior carries a budget.
pub open spec fn reflects_now(v: Disk) -> bool {
    &&& v.reflect_count matches Some(n) && n > 0
    &&& reflect_tag_active(v.behavior@)
}

/// A bounce budget spent by one, stopping at zero.
pub open spec fn dec_budget(b: Option<u32>) -> Option<u32> {
    match b {
        Some(n) => Some(
            (if n > 0 {
                n - 1
            } else {
                0
            }) as u32,
        ),
        None => None,
    }
}

/// Boundary resolution after displacement. A reflecting entity that
/// crossed an edge (its size counted) has the displacement on that axis
/// undone, the velocity component negated and one bounce spent; any
/// other entity is culled once its bounding box is fully outside the
/// world on some axis.
pub open spec fn bounds_spec(v: Disk, w: int, h: int) -> Option<Disk> {
    if reflects_now(v) {
        let v1 = if clip64(v.x - v.disk_size) < 0 || clip64(v.x + v.disk_size) > w {
            Disk {
                x: clip64(v.x - v.vec2d.x) as i64,
                vec2d: Vec2d { x: clip64(-(v.vec2d.x as int)) as i64, y: v.vec2d.y },
                reflect_count: dec_budget(v.reflect_count),
                ..v
            }
        } else {
            v
        };
        let v2 = if clip64(v1.y - v1.disk_size) < 0 || clip64(v1.y + v1.disk_size) > h {
            Disk {
                y: clip64(v1.y - v1.vec2d.y) as i64,
                vec2d: Vec2d { x: v1.vec2d.x, y: clip64(-(v1.vec2d.y as int)) as i64 },
                reflect_count: dec_budget(v1.reflect_count),
                ..v1
            }
        } else {
            v1
        };
        Some(v2)
    } else {
        if clip64(v.x + v.disk_size) < 0 || clip64(v.x - v.disk_size) > w || clip64(
            v.y + v.disk_size,
        ) < 0 || clip64(v.y - v.disk_size) > h {
            None
        } else {
            Some(v)
        }
    }
}

/// One whole frame for one entity, with `r` the frame's random draw:
/// age, behaviors in list order, then, unless napping, displacement and
/// boundary resolution. A napping entity freezes in place and is never
/// culled this frame.
#[verifier::opaque]
pub open spec fn step_spec(d: Disk, w: int, h: int, r: int) -> Option<Disk> {
    let b = behaviors_applied(aged(d), r);
    if b.sleep_time > 0 {
        Some(b)
    } else {
        let m = Disk { x: clip64(b.x + b.vec2d.x) as i64, y: clip64(b.y + b.vec2d.y) as i64, ..b };
        bounds_spec(m, w, h)
    }
}

/// One simulation pass over a whole pool: empty slots stay empty, and
/// each live entity is the result of one frame under some random draw.
pub open spec fn stepped_pool(
    mid: Seq<Option<Disk>>,
    fin: Seq<Option<Disk>>,
    w: int,
    h: int,
) -> bool {
    &&& fin.len() == mid.len()
    &&& forall|k: int| 0 <= k < mid.len() && mid[k] is None ==> fin[k] is None
    &&& forall|k: int|
        0 <= k < mid.len() ==> ((#[trigger] mid[k]) matches Some(d) ==> exists|r: int|
            0 <= r < FULL_TURN && fin[k] == step_spec(d, w, h, r))
}

/// Saturating negation on `i64`.
fn sat_neg(a: i64) -> (r: i64)
    ensures
        r == clip64(-(a as int)),
{
    if a == i64::MIN {
        i64::MAX
    } else {
        -a
    }
}

/// The nap-counter update of one sleep behavior.
fn apply_sleep(d: Disk, interval: i32, nap: i32) -> (res: Disk)
    requires
        d.wf(),
        0 <= interval,
        0 <= nap,
    ensures
        res == apply_behavior_spec(d, ShotBehavior::Sleep(interval, nap), 0),
        res.wf(),
        res.behavior == d.behavior,
        res.age == d.age,
{
    let delta: i32 = if interval == 0 {
        0
    } else if d.age % (interval as u32) == 0 {
        nap
    } else if d.sleep_time > 0 {
        -1
    } else {
        0
    };
    let summed: i64 = d.sleep_time as i64 + delta as i64;
    let clamped: i32 = if summed > i32::MAX as i64 {
        i32::MAX
    } else if summed < i32::MIN as i64 {
        i32::MIN
    } else {
        summed as i32
    };
    Disk { sleep_time: clamped, ..d }
}

/// The speed change of one speed behavior: the new speed, grown or
/// shrunk by the rate and clamped, with the velocity rebuilt from it.
fn apply_speed(d: Disk, rate: i64, up: bool) -> (res: Disk)
    requires
        d.wf(),
        0 <= rate <= crate::num::RATE_LIMIT,
    ensures
        up ==> res == apply_behavior_spec(d, ShotBehavior::SpeedUp(0, rate), 0),
        !up ==> res == apply_behavior_spec(d, ShotBehavior::SpeedDown(0, rate), 0),
        res.wf(),
        res.behavior == d.behavior,
        res.age == d.age,
{
    let change = mul_scaled(rate, d.speed);
    proof {
        assert(scale_mul(rate as int, d.speed as int) == scale_mul(d.speed as int, rate as int));
    }
    let moved = if up {
        sat_add(d.speed, change)
    } else {
        sat_sub(d.speed, change)
    };
    proof {
        if up {
            assert(clip64(d.speed + change) == d.speed + change);
        } else {
            assert(clip64(d.speed - change) == d.speed - change);
        }
    }
    let sp = clamp_mag(moved, SPEED_LIMIT);
    let v = Vec2d::new(d.angle, sp);
    Disk { speed: sp, vec2d: v, ..d }
}

/// The velocity pull of one gravity behavior.
fn apply_gravity(d: Disk, dir: u32, rate: i64) -> (res: Disk)
    requires
        d.wf(),
        0 <= rate <= crate::num::RATE_LIMIT,
    ensures
        res == apply_behavior_spec(d, ShotBehavior::Gravity(dir, rate), 0),
        res.wf(),
        res.behavior == d.behavior,
        res.age == d.age,
{
    let mag = clamp_mag(mul_scaled(rate, d.speed), SPEED_LIMIT);
    proof {
        assert(scale_mul(rate as int, d.speed as int) == scale_mul(d.speed as int, rate as int));
    }
    let ga: i64 = (dir as i64) * 90000;
    let gv = Vec2d::new(ga, mag);
    let merged = d.vec2d.plus(gv);
    Disk { vec2d: merged, ..d }
}

/// The re-aim of one random behavior under the frame's draw.
fn apply_random(d: Disk, r: i64) -> (res: Disk)
    requires
        d.wf(),
        0 <= r < FULL_TURN,
    ensures
        res == apply_behavior_spec(d, ShotBehavior::Random, r as int),
        res.wf(),
        res.behavior == d.behavior,
        res.age == d.age,
{
    let v = Vec2d::new(r, d.speed);
    Disk { angle: r, vec2d: v, ..d }
}

/// Applies one behavior modifier to the entity.
fn apply_behavior(d: Disk, b: ShotBehavior, r: i64) -> (res: Disk)
    requires
        d.wf(),
        behavior_wf(b),
        0 <= r < FULL_TURN,
    ensures
        res == apply_behavior_spec(d, b, r as int),
        res.wf(),
        res.behavior == d.behavior,
        res.age == d.age,
{
    match b {
        ShotBehavior::Normal => d,
        ShotBehavior::Reflect(_) => d,
        ShotBehavior::Sleep(interval, nap) => apply_sleep(d, interval, nap),
        ShotBehavior::SpeedUp(_, rate) => apply_speed(d, rate, true),
        ShotBehavior::SpeedDown(_, rate) => apply_speed(d, rate, false),
        ShotBehavior::Gravity(dir, rate) => apply_gravity(d, dir, rate),
        ShotBehavior::Random => apply_random(d, r),
    }
}

/// Advances one entity one frame under a given random draw.
pub fn step_disk_with(d: Disk, width: i64, height: i64, r: i64) -> (res: Option<Disk>)
    requires
        d.wf(),
        0 <= r < FULL_TURN,
    ensures
        res == step_spec(d, width as int, height as int, r as int),
        (res matches Some(v) ==> v.wf()),
{
    proof {
        reveal(step_spec);
    }
    let mut v = d;
    let sum: u64 = v.age as u64 + 1;
    v.age = (sum % 0x100000000) as u32;
    proof {
        assert(v == aged(d));
    }
    let ghost base = v;
    let n = v.behavior.len();
    let mut k: usize = 0;
    while k < n
        invariant
            base == aged(d),
            base.wf(),
            0 <= r < FULL_TURN,
            n == base.behavior@.len(),
            0 <= k <= n,
            v == apply_behaviors_upto(base, r as int, k as int),
            v.behavior == base.behavior,
            v.age == base.age,
            v.wf(),
        decreases n - k,
    {
        let b = v.behavior[k];
        proof {
            assert(behavior_wf(base.behavior@[k as int]));
        }
        v = apply_behavior(v, b, r);
        k = k + 1;
    }
    if v.sleep_time > 0 {
        return Some(v);
    }
    v.x = sat_add(v.x, v.vec2d.x);
    v.y = sat_add(v.y, v.vec2d.y);
    resolve_bounds(v, width, height)
}

/// Boundary resolution for one displaced entity.
pub fn resolve_bounds(v: Disk, width: i64, height: i64) -> (res: Option<Disk>)
    ensures
        res == bounds_spec(v, width as int, height as int),
        v.wf() ==> (res matches Some(u) ==> u.wf()),
{
    let should_reflect = match v.reflect_count {
        Some(n) => n > 0,
        None => false,
    };
    let mut i: usize = 0;
    let len = v.behavior.len();
    let mut tag_active = false;
    let mut seen_reflect = false;
    while i < len && !seen_reflect
        invariant
            len == v.behavior@.len(),
            0 <= i <= len,
            !seen_reflect ==> !tag_active && first_reflect_from(v.behavior@, 0)
                == first_reflect_from(v.behavior@, i as int),
            seen_reflect ==> (tag_active == reflect_tag_active(v.behavior@)),
        decreases len - i,
    {
        match v.behavior[i] {
            ShotBehavior::Reflect(Some(_)) => {
                tag_active = true;
                seen_reflect = true;
            },
            ShotBehavior::Reflect(None) => {
                seen_reflect = true;
            },
            _ => {},
        }
        i = i + 1;
    }
    if should_reflect && tag_active {
        let mut u = v;
        if sat_sub(u.x, u.disk_size) < 0 || sat_add(u.x, u.disk_size) > width {
            u.x = sat_sub(u.x, u.vec2d.x);
            u.vec2d.x = sat_neg(u.vec2d.x);
            u.reflect_count = match u.reflect_count {
                Some(n) => Some(
                    if n > 0 {
                        n - 1
                    } else {
                        0
                    },
                ),
                None => None,
            };
        }
        if sat_sub(u.y, u.disk_size) < 0 || sat_add(u.y, u.disk_size) > height {
            u.y = sat_sub(u.y, u.vec2d.y);
            u.vec2d.y = sat_neg(u.vec2d.y);
            u.reflect_count = match u.reflect_count {
                Some(n) => Some(
                    if n > 0 {
                        n - 1
                    } else {
                        0
                    },
                ),
                None => None,
            };
        }
        Some(u)
    } else {
        if sat_add(v.x, v.disk_size) < 0 || sat_sub(v.x, v.disk_size) > width || sat_add(
            v.y,
            v.disk_size,
        ) < 0 || sat_sub(v.y, v.disk_size) > height {
            None
        } else {
            Some(v)
        }
    }
}

/// Advances one entity one frame, drawing this frame's random angle.
pub fn step_disk(d: Disk, width: i64, height: i64) -> (res: Option<Disk>)
    requires
        d.wf(),
    ensures
        exists|r: int|
            0 <= r < FULL_TURN && res == step_spec(d, width as int, height as int, r),
        (res matches Some(v) ==> v.wf()),
{
    let r = random_angle_mdeg();
    let res = step_disk_with(d, width, height, r);
    proof {
        let draw = r as int;
        assert(0 <= draw < FULL_TURN && res == step_spec(
            d,
            width as int,
            height as int,
            draw,
        ));
    }
    res
}

} // verus!
