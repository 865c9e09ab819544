use diskshot::disk::{resolve_disk_color, resolve_disk_type, Disk};
use diskshot::shot::ShotBehavior;
use diskshot::sim::{resolve_bounds, step_disk};

fn disk_at(x: i64, y: i64, behavior: Vec<ShotBehavior>, angle: i64, speed: i64) -> Disk {
    Disk::new(
        x,
        y,
        behavior,
        resolve_disk_type(0),
        4000,
        angle,
        speed,
        resolve_disk_color(0),
    )
}

const W: i64 = 500000;
const H: i64 = 500000;

#[test]
fn test_plain_step_displaces() {
    // angle 0, speed 1.0: straight down the y axis, one unit per frame.
    let d = disk_at(250000, 250000, vec![ShotBehavior::Normal], 0, 1000);
    let stepped = step_disk(d, W, H).unwrap();
    assert_eq!(stepped.x, 250000);
    assert_eq!(stepped.y, 251000);
    assert_eq!(stepped.age, 1);
}

#[test]
fn test_sleep_freezes_for_timeout_frames() {
    // Sleep(10, 5): frozen for the 5 frames from the one where age % 10 == 0.
    let mut d = disk_at(250000, 250000, vec![ShotBehavior::Sleep(10, 5)], 0, 1000);
    let mut positions: Vec<i64> = Vec::new();
    for _ in 0..16 {
        d = step_disk(d, W, H).unwrap();
        positions.push(d.y);
    }
    // frames 1..=9 move; frames 10..=14 are frozen; frame 15 moves again.
    for t in 0..9 {
        assert_eq!(positions[t], 250000 + 1000 * (t as i64 + 1));
    }
    for t in 9..14 {
        assert_eq!(positions[t], 259000);
    }
    assert_eq!(positions[14], 260000);
    assert_eq!(positions[15], 261000);
}

#[test]
fn test_speed_up_grows_velocity() {
    // a 10 percent rate is 100 milli-fractions: 1.0 becomes 1.1.
    let d = disk_at(250000, 250000, vec![ShotBehavior::SpeedUp(0, 100)], 0, 1000);
    let stepped = step_disk(d, W, H).unwrap();
    assert_eq!(stepped.speed, 1100);
    assert_eq!(stepped.y, 251100);
}

#[test]
fn test_speed_down_shrinks_velocity() {
    let d = disk_at(250000, 250000, vec![ShotBehavior::SpeedDown(0, 100)], 0, 1000);
    let stepped = step_disk(d, W, H).unwrap();
    assert_eq!(stepped.speed, 900);
    assert_eq!(stepped.y, 250900);
}

#[test]
fn test_gravity_accumulates() {
    // direction 1 is a quarter turn: the pull is horizontal, a tenth of
    // the entity's own speed each frame, added to the velocity.
    let d = disk_at(
        250000,
        250000,
        vec![ShotBehavior::Gravity(1, 100)],
        0,
        1000,
    );
    let s1 = step_disk(d, W, H).unwrap();
    assert_eq!(s1.vec2d.x, 100);
    assert_eq!(s1.vec2d.y, 1000);
    assert_eq!(s1.x, 250100);
    let s2 = step_disk(s1, W, H).unwrap();
    assert_eq!(s2.vec2d.x, 200);
    assert_eq!(s2.x, 250300);
}

#[test]
fn test_random_behavior_reaims_in_range() {
    let d = disk_at(250000, 250000, vec![ShotBehavior::Random], 0, 1000);
    let stepped = step_disk(d, W, H).unwrap();
    assert!(0 <= stepped.angle && stepped.angle < 360000);
    assert_eq!(stepped.speed, 1000);
}

#[test]
fn test_reflect_left_flips_velocity_once() {
    // crossing the left edge with one bounce left: the x displacement is
    // undone, the x velocity flips, the budget drops to zero.
    let d = disk_at(
        2000,
        250000,
        vec![ShotBehavior::Reflect(Some(1))],
        270000,
        1000,
    );
    assert_eq!(d.reflect_count, Some(1));
    assert_eq!(d.vec2d.x, -1000);
    let u = resolve_bounds(d, W, H).unwrap();
    assert_eq!(u.vec2d.x, 1000);
    assert_eq!(u.x, 3000);
    assert_eq!(u.reflect_count, Some(0));
    assert_eq!(u.vec2d.y, 0);
    assert_eq!(u.y, 250000);
}

#[test]
fn test_spent_reflect_budget_culls() {
    // with the budget at zero the entity no longer reflects: fully
    // outside on the left, it is culled.
    let mut d = disk_at(
        -10000,
        250000,
        vec![ShotBehavior::Reflect(Some(1))],
        270000,
        1000,
    );
    d.reflect_count = Some(0);
    assert!(resolve_bounds(d, W, H).is_none());
}

#[test]
fn test_reflect_none_budget_is_normal() {
    // Reflect without a budget behaves as a normal entity: inside the
    // world it survives, fully outside it is culled.
    let inside = disk_at(2000, 250000, vec![ShotBehavior::Reflect(None)], 270000, 1000);
    assert!(resolve_bounds(inside, W, H).is_some());
    let outside = disk_at(-10000, 250000, vec![ShotBehavior::Reflect(None)], 270000, 1000);
    assert!(resolve_bounds(outside, W, H).is_none());
}

#[test]
fn test_cull_requires_fully_outside() {
    // an entity straddling the edge is kept; only a box fully outside goes.
    let straddling = disk_at(-2000, 250000, vec![ShotBehavior::Normal], 0, 1000);
    assert!(resolve_bounds(straddling, W, H).is_some());
    let gone = disk_at(-4001, 250000, vec![ShotBehavior::Normal], 0, 1000);
    assert!(resolve_bounds(gone, W, H).is_none());
}
