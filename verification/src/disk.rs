//! The simulated entity: one bullet with position, velocity, age and its
//! list of behaviors, living in one slot of the pool.
use vstd::prelude::*;
use crate::num::ANGLE_LIMIT;
use crate::num::SIZE_LIMIT;
use crate::num::SPEED_LIMIT;
use crate::shot::ShotBehavior;
use crate::shot::behaviors_wf;
use crate::vec2d::Vec2d;
use crate::vec2d::vel_x_spec;
use crate::vec2d::vel_y_spec;

verus! {

/// The visual shape of an entity.
#[derive(Debug, Copy, Clone, Eq, PartialEq, Structural)]
pub enum DiskType {
    Oval,
    Dot,
    Circle,
    Orb,
    Arrow,
}

/// The shape encoded by a configuration number.
pub open spec fn disk_type_of(disk_type: u32) -> DiskType {
    if disk_type == 0 {
        DiskType::Oval
    } else if disk_type == 1 {
        DiskType::Dot
    } else if disk_type == 2 {
        DiskType::Circle
    } else if disk_type == 3 {
        DiskType::Orb
    } else if disk_type == 4 {
        DiskType::Arrow
    } else {
        DiskType::Oval
    }
}

/// Decodes a shape from its configuration number; unknown numbers fall
/// back to `Oval`.
pub fn resolve_disk_type(disk_type: u32) -> (r: DiskType)
    ensures
        r == disk_type_of(disk_type),
{
    match disk_type {
        0 => DiskType::Oval,
        1 => DiskType::Dot,
        2 => DiskType::Circle,
        3 => DiskType::Orb,
        4 => DiskType::Arrow,
        _ => DiskType::Oval,
    }
}

/// The visual color of an entity.
#[derive(Debug, Copy, Clone, Eq, PartialEq, Structural)]
pub enum DiskColor {
    Red,
    Orange,
    Yellow,
    Green,
    LightBlue,
    Blue,
    DeepBlue,
    Purple,
    Pink,
}

/// The color encoded by a configuration number.
pub open spec fn disk_color_of(disk_color: u32) -> DiskColor {
    if disk_color == 0 {
        DiskColor::Red
    } else if disk_color == 1 {
        DiskColor::Orange
    } else if disk_color == 2 {
        DiskColor::Yellow
    } else if disk_color == 3 {
        DiskColor::Green
    } else if disk_color == 4 {
        DiskColor::LightBlue
    } else if disk_color == 5 {
        DiskColor::Blue
    } else if disk_color == 6 {
        DiskColor::DeepBlue
    } else if disk_color == 7 {
        DiskColor::Purple
    } else if disk_color == 8 {
        DiskColor::Pink
    } else {
        DiskColor::Red
    }
}

/// Decodes a color from its configuration number; unknown numbers fall
/// back to `Red`.
pub fn resolve_disk_color(disk_color: u32) -> (r: DiskColor)
    ensures
        r == disk_color_of(disk_color),
{
    match disk_color {
        0 => DiskColor::Red,
        1 => DiskColor::Orange,
        2 => DiskColor::Yellow,
        3 => DiskColor::Green,
        4 => DiskColor::LightBlue,
        5 => DiskColor::Blue,
        6 => DiskColor::DeepBlue,
        7 => DiskColor::Purple,
        8 => DiskColor::Pink,
        _ => DiskColor::Red,
    }
}

/// The bounce budget an entity starts with: the value of the first
/// `Reflect` behavior that carries one, searched from index `i` on.
pub open spec fn first_reflect_budget_from(s: Seq<ShotBehavior>, i: int) -> Option<u32>
    decreases s.len() - i,
{
    if i < 0 || i >= s.len() {
        None
    } else {
        match s[i] {
            ShotBehavior::Reflect(Some(n)) => Some(n),
            _ => first_reflect_budget_from(s, i + 1),
        }
    }
}

/// The bounce budget an entity starts with, from its behavior list.
pub open spec fn first_reflect_budget(s: Seq<ShotBehavior>) -> Option<u32> {
    first_reflect_budget_from(s, 0)
}

/// One bullet. Positions, sizes and speeds are in milli-units, angles in
/// milli-degrees.
#[derive(Debug, Clone)]
pub struct Disk {
    /// Frames lived so far.
    pub age: u32,
    /// Bounces left before the entity stops reflecting; `None` means it
    /// never reflects.
    pub reflect_count: Option<u32>,
    pub x: i64,
    pub y: i64,
    pub speed: i64,
    pub angle: i64,
    pub vec2d: Vec2d,
    pub behavior: Vec<ShotBehavior>,
    pub disk_type: DiskType,
    pub disk_size: i64,
    /// Frames left in the current nap; positive means frozen.
    pub sleep_time: i32,
    pub disk_color: DiskColor,
}

impl Disk {
    /// The entity's numeric fields are within the fixed-point bounds.
    pub open spec fn wf(self) -> bool {
        &&& -ANGLE_LIMIT <= self.angle <= ANGLE_LIMIT
        &&& -SPEED_LIMIT <= self.speed <= SPEED_LIMIT
        &&& 0 <= self.disk_size <= SIZE_LIMIT
        &&& self.sleep_time >= 0
        &&& behaviors_wf(self.behavior@)
    }

    /// Creates a fresh entity at a position, aimed by angle and speed,
    /// with its bounce budget read off the behavior list.
    pub fn new(
        x: i64,
        y: i64,
        behavior: Vec<ShotBehavior>,
        disk_type: DiskType,
        disk_size: i64,
        angle: i64,
        speed: i64,
        disk_color: DiskColor,
    ) -> (d: Disk)
        requires
            -ANGLE_LIMIT <= angle <= ANGLE_LIMIT,
            -SPEED_LIMIT <= speed <= SPEED_LIMIT,
            0 <= disk_size <= SIZE_LIMIT,
            behaviors_wf(behavior@),
        ensures
            d.wf(),
            d.age == 0,
            d.reflect_count == first_reflect_budget(behavior@),
            d.x == x,
            d.y == y,
            d.speed == speed,
            d.angle == angle,
            d.vec2d.x == vel_x_spec(angle as int, speed as int),
            d.vec2d.y == vel_y_spec(angle as int, speed as int),
            d.behavior == behavior,
            d.disk_type == disk_type,
            d.disk_size == disk_size,
            d.sleep_time == 0,
            d.disk_color == disk_color,
    {
        let vec2d = Vec2d::new(angle, speed);
        let mut i: usize = 0;
        let mut reflect_count: Option<u32> = None;
        let n = behavior.len();
        while i < n && reflect_count.is_none()
            invariant
                n == behavior.len(),
                0 <= i <= n,
                match reflect_count {
                    None => first_reflect_budget(behavior@) == first_reflect_budget_from(
                        behavior@,
                        i as int,
                    ),
                    Some(k) => first_reflect_budget(behavior@) == Some(k),
                },
            decreases n - i,
        {
            match behavior[i] {
                ShotBehavior::Reflect(Some(k)) => {
                    reflect_count = Some(k);
                    i = i + 1;
                },
                _ => {
                    i = i + 1;
                },
            }
        }
        Disk {
            age: 0,
            reflect_count,
            x,
            y,
            speed,
            angle,
            vec2d,
            behavior,
            disk_type,
            disk_size,
            sleep_time: 0,
            disk_color,
        }
    }

    /// Ages the entity, wrapping at the integer range like the underlying
    /// counter would.
    pub fn gain_age(&mut self, by: u32)
        ensures
            final(self).age == (old(self).age + by) % 0x100000000,
            final(self).reflect_count == old(self).reflect_count,
            final(self).x == old(self).x,
            final(self).y == old(self).y,
            final(self).speed == old(self).speed,
            final(self).angle == old(self).angle,
            final(self).vec2d == old(self).vec2d,
            final(self).behavior == old(self).behavior,
            final(self).disk_type == old(self).disk_type,
            final(self).disk_size == old(self).disk_size,
            final(self).sleep_time == old(self).sleep_time,
            final(self).disk_color == old(self).disk_color,
    {
        let sum: u64 = self.age as u64 + by as u64;
        self.age = (sum % 0x100000000) as u32;
    }
}

} // verus!
