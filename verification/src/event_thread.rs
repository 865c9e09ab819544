//! An emitter: one configured source that, when fired, resolves its
//! behavior templates against the current setting, generates a burst of
//! entities by its pattern, and writes them into free slots of the pool.
use vstd::prelude::*;
use crate::num::FULL_TURN;
use crate::num::RATE_LIMIT;
use crate::setting::Setting;
use crate::shot::ShotType;
use crate::shot::ShotBehavior;
use crate::shot::behavior_wf;
use crate::shot::behaviors_wf;
use crate::disk::Disk;
use crate::disk::first_reflect_budget;
use crate::vec2d::vel_x_spec;
use crate::vec2d::vel_y_spec;
use crate::pool::assign_all;
use crate::pool::assign_disks;
use crate::pool::occupied_count;
use crate::pool::min_int;
use crate::pool::pool_wf;
use crate::pool::lemma_assign_all_count;
use crate::pool::lemma_assign_all_wf;
use crate::rng::random_angle_mdeg;

verus! {

/// The value of an optional `u32` field, or the default.
pub open spec fn u32_or(o: Option<u32>, d: u32) -> u32 {
    match o {
        Some(v) => v,
        None => d,
    }
}

/// The value of an optional `i64` field, or the default.
pub open spec fn i64_or(o: Option<i64>, d: i64) -> i64 {
    match o {
        Some(v) => v,
        None => d,
    }
}

/// A percentage turned into a per-frame rate in milli-fractions, capped
/// at 1000 percent.
pub open spec fn rate_of(p: u32) -> i64 {
    if p > 1000 {
        10000
    } else {
        (10 * p) as i64
    }
}

/// A change interval, floored at zero.
pub open spec fn interval_of(v: i64) -> i64 {
    if v < 0 {
        0
    } else {
        v
    }
}

/// A behavior template resolved against the emitter's current setting:
/// the parameters come from the setting at fire time, not from the
/// template.
pub open spec fn spawn_behavior_of(t: ShotBehavior, s: Setting) -> ShotBehavior {
    match t {
        ShotBehavior::Normal => ShotBehavior::Normal,
        ShotBehavior::SpeedUp(_, _) => ShotBehavior::SpeedUp(
            interval_of(i64_or(s.speed_change_interval, 0)),
            rate_of(u32_or(s.speed_change_per, 1)),
        ),
        ShotBehavior::SpeedDown(_, _) => ShotBehavior::SpeedDown(
            interval_of(i64_or(s.speed_change_interval, 0)),
            rate_of(u32_or(s.speed_change_per, 1)),
        ),
        ShotBehavior::Reflect(_) => ShotBehavior::Reflect(s.reflect_count),
        ShotBehavior::Random => ShotBehavior::Random,
        ShotBehavior::Sleep(_, _) => ShotBehavior::Sleep(s.sleep_interval, s.sleep_timeout),
        ShotBehavior::Gravity(_, _) => ShotBehavior::Gravity(
            u32_or(s.gravity_direction, 0),
            rate_of(u32_or(s.gravity_change_per, 1)),
        ),
    }
}

/// The behavior list every entity of a burst carries: each template of
/// the setting, resolved.
pub open spec fn spawn_behaviors(s: Setting) -> Seq<ShotBehavior> {
    Seq::new(s.shot_behavior@.len(), |i: int| spawn_behavior_of(s.shot_behavior@[i], s))
}

/// The angle of ray `i` of a circle burst: rays evenly spaced over the
/// full turn, rotated by the drift times the burst index.
pub open spec fn circle_angle(s: Setting, iter: int, i: int) -> int {
    (FULL_TURN as int / s.shot_way_num as int) * i + s.degree_change_by * iter
}

/// The angle of ray `i` of a fan burst: rays spread over a 100 degree
/// fan around straight down, rotated by the drift times the burst index.
pub open spec fn linear_angle(s: Setting, iter: int, i: int) -> int {
    (100000int / s.shot_way_num as int) * i - 50000 + s.degree_change_by * iter
}

/// `d` is exactly the entity a fire of setting `s` spawns at position
/// `(x, y)` under angle `angle`.
pub open spec fn disk_spawned(s: Setting, x: int, y: int, angle: int, d: Disk) -> bool {
    &&& d.age == 0
    &&& d.reflect_count == first_reflect_budget(spawn_behaviors(s))
    &&& d.x == x
    &&& d.y == y
    &&& d.speed == s.shot_speed
    &&& d.angle == angle
    &&& d.vec2d.x == vel_x_spec(angle, s.shot_speed as int)
    &&& d.vec2d.y == vel_y_spec(angle, s.shot_speed as int)
    &&& d.behavior@ == spawn_behaviors(s)
    &&& d.disk_type == s.disk_type
    &&& d.disk_size == s.disk_size
    &&& d.sleep_time == 0
    &&& d.disk_color == s.disk_color
}

/// Entry `i` of a burst of setting `s` at burst index `iter`: its angle
/// follows the pattern, or is some fresh draw for the random pattern.
pub open spec fn burst_entry(s: Setting, iter: int, i: int, d: Disk) -> bool {
    match s.shot_type {
        ShotType::Circle => disk_spawned(
            s,
            s.x_coordinate as int,
            s.y_coordinate as int,
            circle_angle(s, iter, i),
            d,
        ),
        ShotType::Linear => disk_spawned(
            s,
            s.x_coordinate as int,
            s.y_coordinate as int,
            linear_angle(s, iter, i),
            d,
        ),
        ShotType::Random => exists|a: int|
            0 <= a < FULL_TURN && disk_spawned(
                s,
                s.x_coordinate as int,
                s.y_coordinate as int,
                a,
                d,
            ),
    }
}

/// `b` is exactly a burst of setting `s` at burst index `iter`: one
/// entity per way, each matching its pattern entry.
pub open spec fn burst_matches(s: Setting, iter: int, b: Seq<Disk>) -> bool {
    &&& b.len() == s.shot_way_num
    &&& forall|i: int| 0 <= i < b.len() ==> burst_entry(s, iter, i, #[trigger] b[i])
}

/// An identical, independently owned behavior list.
fn copy_behaviors(v: &Vec<ShotBehavior>) -> (r: Vec<ShotBehavior>)
    ensures
        r@ == v@,
{
    let mut out: Vec<ShotBehavior> = Vec::new();
    let n = v.len();
    let mut i: usize = 0;
    while i < n
        invariant
            n == v@.len(),
            0 <= i <= n,
            out@ =~= v@.take(i as int),
        decreases n - i,
    {
        out.push(v[i]);
        i = i + 1;
    }
    proof {
        assert(v@.take(n as int) =~= v@);
    }
    out
}

/// Resolves every behavior template of the setting for a new burst.
fn resolve_spawn_behaviors(s: &Setting) -> (r: Vec<ShotBehavior>)
    requires
        s.wf(),
    ensures
        r@ == spawn_behaviors(*s),
        behaviors_wf(r@),
{
    let mut out: Vec<ShotBehavior> = Vec::new();
    let n = s.shot_behavior.len();
    let mut i: usize = 0;
    while i < n
        invariant
            s.wf(),
            n == s.shot_behavior@.len(),
            0 <= i <= n,
            out@.len() == i,
            forall|j: int|
                0 <= j < i ==> out@[j] == spawn_behavior_of(s.shot_behavior@[j], *s)
                    && behavior_wf(#[trigger] out@[j]),
        decreases n - i,
    {
        let speed_interval: i64 = {
            let raw = match s.speed_change_interval {
                Some(v) => v,
                None => 0,
            };
            if raw < 0 {
                0
            } else {
                raw
            }
        };
        let speed_rate: i64 = rate_from_percent(match s.speed_change_per {
            Some(p) => p,
            None => 1,
        });
        let gravity_rate: i64 = rate_from_percent(match s.gravity_change_per {
            Some(p) => p,
            None => 1,
        });
        let gravity_dir: u32 = match s.gravity_direction {
            Some(g) => g,
            None => 0,
        };
        let resolved = match s.shot_behavior[i] {
            ShotBehavior::Normal => ShotBehavior::Normal,
            ShotBehavior::SpeedUp(_, _) => ShotBehavior::SpeedUp(speed_interval, speed_rate),
            ShotBehavior::SpeedDown(_, _) => ShotBehavior::SpeedDown(speed_interval, speed_rate),
            ShotBehavior::Reflect(_) => ShotBehavior::Reflect(s.reflect_count),
            ShotBehavior::Random => ShotBehavior::Random,
            ShotBehavior::Sleep(_, _) => ShotBehavior::Sleep(s.sleep_interval, s.sleep_timeout),
            ShotBehavior::Gravity(_, _) => ShotBehavior::Gravity(gravity_dir, gravity_rate),
        };
        out.push(resolved);
        i = i + 1;
    }
    proof {
        assert(out@ =~= spawn_behaviors(*s));
    }
    out
}

/// A percentage turned into a per-frame rate in milli-fractions.
fn rate_from_percent(p: u32) -> (r: i64)
    ensures
        r == rate_of(p),
        0 <= r <= RATE_LIMIT,
{
    if p > 1000 {
        10000
    } else {
        (10 * p) as i64
    }
}

/// One configured emitter.
#[derive(Debug, Clone)]
pub struct EventThread {
    pub id: u32,
    /// Number of bursts fired so far; drives the angular drift.
    pub iter: u32,
    pub setting: Setting,
}

impl EventThread {
    /// The emitter's setting is within the fixed-point bounds.
    pub open spec fn wf(self) -> bool {
        self.setting.wf()
    }

    /// Creates an emitter that has not fired yet.
    pub fn new(id: u32, setting: Setting) -> (t: EventThread)
        ensures
            t.id == id,
            t.iter == 0,
            t.setting == setting,
    {
        EventThread { id, iter: 0, setting }
    }

    /// Atomically replaces the setting; the next fire uses the new
    /// values, already spawned entities are unaffected.
    pub fn update_setting(&mut self, setting: Setting)
        ensures
            final(self).id == old(self).id,
            final(self).iter == old(self).iter,
            final(self).setting == setting,
    {
        self.setting = setting;
    }

    /// Generates one burst and writes it into the first free slots of
    /// the pool; entities beyond the free capacity are dropped silently.
    pub fn spawn_disks(&mut self, disks: &mut Vec<Option<Disk>>)
        requires
            old(self).wf(),
            pool_wf(old(disks)@),
        ensures
            final(self).id == old(self).id,
            final(self).setting == old(self).setting,
            final(self).iter == (old(self).iter + 1) % 0x100000000,
            final(disks)@.len() == old(disks)@.len(),
            pool_wf(final(disks)@),
            occupied_count(final(disks)@) == min_int(
                occupied_count(old(disks)@) + old(self).setting.shot_way_num,
                old(disks)@.len() as int,
            ),
            forall|k: int|
                0 <= k < old(disks)@.len() && old(disks)@[k] is Some ==> final(disks)@[k]
                    == old(disks)@[k],
            exists|b: Seq<Disk>|
                #![auto]
                burst_matches(old(self).setting, final(self).iter as int, b) && final(disks)@
                    == assign_all(old(disks)@, b),
            old(self).setting.shot_way_num == 0 ==> final(disks)@ == old(disks)@,
    {
        let sum: u64 = self.iter as u64 + 1;
        self.iter = (sum % 0x100000000) as u32;
        let burst = generate_burst(&self.setting, self.iter);
        proof {
            lemma_assign_all_count(disks@, burst@);
            lemma_assign_all_wf(disks@, burst@);
        }
        let ghost witness = burst@;
        assign_disks(disks, burst);
        proof {
            assert(burst_matches(self.setting, self.iter as int, witness) && disks@ == assign_all(
                old(disks)@,
                witness,
            ));
            if self.setting.shot_way_num == 0 {
                assert(witness.len() == 0);
                assert(assign_all(old(disks)@, witness) == old(disks)@);
            }
        }
    }
}

/// Generates the entities of one burst for a setting at burst index
/// `iter`, by the setting's pattern: a full circle of evenly spaced
/// rays, a 100 degree fan, or uniformly random angles. A way count of
/// zero yields an empty burst.
pub fn generate_burst(s: &Setting, iter: u32) -> (burst: Vec<Disk>)
    requires
        s.wf(),
    ensures
        burst_matches(*s, iter as int, burst@),
        forall|i: int| 0 <= i < burst@.len() ==> (#[trigger] burst@[i]).wf(),
{
    let way = s.shot_way_num;
    let master = resolve_spawn_behaviors(s);
    let mut burst: Vec<Disk> = Vec::new();
    if way == 0 {
        return burst;
    }
    let drift_total: i64 = {
        assert(s.degree_change_by * iter <= 360000int * 0x100000000) by (nonlinear_arith)
            requires
                -FULL_TURN <= s.degree_change_by <= FULL_TURN,
                0 <= iter < 0x100000000,
        ;
        assert(s.degree_change_by * iter >= -(360000int * 0x100000000)) by (nonlinear_arith)
            requires
                -FULL_TURN <= s.degree_change_by <= FULL_TURN,
                0 <= iter < 0x100000000,
        ;
        s.degree_change_by * (iter as i64)
    };
    match s.shot_type {
        ShotType::Circle => {
            let spacing: i64 = FULL_TURN / (way as i64);
            let mut i: u32 = 0;
            while i < way
                invariant
                    s.wf(),
                    s.shot_type is Circle,
                    0 < way == s.shot_way_num,
                    0 <= i <= way,
                    master@ == spawn_behaviors(*s),
                    behaviors_wf(master@),
                    spacing == FULL_TURN as int / way as int,
                    drift_total == s.degree_change_by * iter,
                    -1600000000000000 <= drift_total <= 1600000000000000,
                    burst@.len() == i,
                    forall|j: int|
                        0 <= j < i ==> burst_entry(*s, iter as int, j, #[trigger] burst@[j]),
                    forall|j: int| 0 <= j < i ==> (#[trigger] burst@[j]).wf(),
                decreases way - i,
            {
                assert(spacing * i <= 360000int * 0x100000000) by (nonlinear_arith)
                    requires
                        0 <= spacing <= FULL_TURN,
                        0 <= i < 0x100000000,
                ;
                assert(spacing * i >= 0) by (nonlinear_arith)
                    requires
                        0 <= spacing,
                        0 <= i,
                ;
                let angle: i64 = spacing * (i as i64) + drift_total;
                let b = copy_behaviors(&master);
                let d = Disk::new(
                    s.x_coordinate,
                    s.y_coordinate,
                    b,
                    s.disk_type,
                    s.disk_size,
                    angle,
                    s.shot_speed,
                    s.disk_color,
                );
                burst.push(d);
                i = i + 1;
            }
            burst
        },
        ShotType::Linear => {
            let spacing: i64 = 100000 / (way as i64);
            let mut i: u32 = 0;
            while i < way
                invariant
                    s.wf(),
                    s.shot_type is Linear,
                    0 < way == s.shot_way_num,
                    0 <= i <= way,
                    master@ == spawn_behaviors(*s),
                    behaviors_wf(master@),
                    spacing == 100000int / way as int,
                    drift_total == s.degree_change_by * iter,
                    -1600000000000000 <= drift_total <= 1600000000000000,
                    burst@.len() == i,
                    forall|j: int|
                        0 <= j < i ==> burst_entry(*s, iter as int, j, #[trigger] burst@[j]),
                    forall|j: int| 0 <= j < i ==> (#[trigger] burst@[j]).wf(),
                decreases way - i,
            {
                assert(spacing * i <= 100000int * 0x100000000) by (nonlinear_arith)
                    requires
                        0 <= spacing <= 100000,
                        0 <= i < 0x100000000,
                ;
                assert(spacing * i >= 0) by (nonlinear_arith)
                    requires
                        0 <= spacing,
                        0 <= i,
                ;
                let angle: i64 = spacing * (i as i64) - 50000 + drift_total;
                let b = copy_behaviors(&master);
                let d = Disk::new(
                    s.x_coordinate,
                    s.y_coordinate,
                    b,
                    s.disk_type,
                    s.disk_size,
                    angle,
                    s.shot_speed,
                    s.disk_color,
                );
                burst.push(d);
                i = i + 1;
            }
            burst
        },
        ShotType::Random => {
            let mut i: u32 = 0;
            while i < way
                invariant
                    s.wf(),
                    s.shot_type is Random,
                    0 < way == s.shot_way_num,
                    0 <= i <= way,
                    master@ == spawn_behaviors(*s),
                    behaviors_wf(master@),
                    burst@.len() == i,
                    forall|j: int|
                        0 <= j < i ==> burst_entry(*s, iter as int, j, #[trigger] burst@[j]),
                    forall|j: int| 0 <= j < i ==> (#[trigger] burst@[j]).wf(),
                decreases way - i,
            {
                let angle: i64 = random_angle_mdeg();
                let b = copy_behaviors(&master);
                let d = Disk::new(
                    s.x_coordinate,
                    s.y_coordinate,
                    b,
                    s.disk_type,
                    s.disk_size,
                    angle,
                    s.shot_speed,
                    s.disk_color,
                );
                proof {
                    let a = angle as int;
                    assert(0 <= a < FULL_TURN && disk_spawned(
                        *s,
                        s.x_coordinate as int,
                        s.y_coordinate as int,
                        a,
                        d,
                    ));
                    assert(burst_entry(*s, iter as int, i as int, d));
                }
                burst.push(d);
                i = i + 1;
            }
            burst
        },
    }
}

/// The x position of entity `i` of a wall row: `way` entities evenly
/// spaced across the width, each centered in its own span.
pub open spec fn wall_x(width: int, way: int, i: int) -> int {
    (width / way) * i + (width / way) / 2
}

/// Generates a width-spanning row of entities at a fixed height, all
/// aimed straight down (angle zero): the drop pattern. A way count of
/// zero yields an empty burst.
pub fn generate_wall_burst(s: &Setting, width: i64, y: i64) -> (burst: Vec<Disk>)
    requires
        s.wf(),
        0 <= width <= 4000000000000000,
    ensures
        burst@.len() == s.shot_way_num,
        forall|i: int|
            0 <= i < burst@.len() ==> disk_spawned(
                *s,
                wall_x(width as int, s.shot_way_num as int, i),
                y as int,
                0,
                #[trigger] burst@[i],
            ),
        forall|i: int| 0 <= i < burst@.len() ==> (#[trigger] burst@[i]).wf(),
{
    let way = s.shot_way_num;
    let master = resolve_spawn_behaviors(s);
    let mut burst: Vec<Disk> = Vec::new();
    if way == 0 {
        return burst;
    }
    let span: i64 = width / (way as i64);
    proof {
        vstd::arithmetic::div_mod::lemma_fundamental_div_mod(width as int, way as int);
        vstd::arithmetic::div_mod::lemma_mod_pos_bound(width as int, way as int);
        assert(way as int * span == width - width as int % way as int);
        assert(way as int * span <= width);
    }
    let half: i64 = span / 2;
    let mut i: u32 = 0;
    while i < way
        invariant
            s.wf(),
            0 < way == s.shot_way_num,
            0 <= i <= way,
            0 <= width <= 4000000000000000,
            master@ == spawn_behaviors(*s),
            behaviors_wf(master@),
            span == width as int / way as int,
            0 <= span <= width,
            way as int * span <= width,
            half == span / 2,
            burst@.len() == i,
            forall|j: int|
                0 <= j < i ==> disk_spawned(
                    *s,
                    wall_x(width as int, way as int, j),
                    y as int,
                    0,
                    #[trigger] burst@[j],
                ),
            forall|j: int| 0 <= j < i ==> (#[trigger] burst@[j]).wf(),
        decreases way - i,
    {
        proof {
            lemma_mul_le(i as int, way as int, span as int);
            assert((span as int) * (i as int) == (i as int) * (span as int)) by (nonlinear_arith);
            assert(0 <= half <= span);
        }
        let x: i64 = span * (i as i64) + half;
        let b = copy_behaviors(&master);
        let d = Disk::new(
            x,
            y,
            b,
            s.disk_type,
            s.disk_size,
            0,
            s.shot_speed,
            s.disk_color,
        );
        burst.push(d);
        i = i + 1;
    }
    burst
}

/// A product grows with its left factor when the right one is not
/// negative.
proof fn lemma_mul_le(i: int, way: int, span: int)
    requires
        0 <= i <= way,
        0 <= span,
    ensures
        0 <= i * span <= way * span,
{
    vstd::arithmetic::mul::lemma_mul_inequality(i, way, span);
    vstd::arithmetic::mul::lemma_mul_nonnegative(i, span);
}

} // verus!
