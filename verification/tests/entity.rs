use diskshot::disk::{resolve_disk_color, resolve_disk_type, Disk};
use diskshot::rectangle::Rectangle;
use diskshot::shot::ShotBehavior;
use diskshot::vec2d::Vec2d;

#[test]
fn test_gain_age() {
    let disk_type = resolve_disk_type(0);
    let mut disk = Disk::new(
        10000,
        10000,
        vec![ShotBehavior::Normal],
        disk_type,
        4000,
        90000,
        10000,
        resolve_disk_color(0),
    );
    disk.gain_age(1);
    assert_eq!(disk.age, 1);
    disk.gain_age(5);
    assert_eq!(disk.age, 6);
}

#[test]
fn test_gain_age_wraps() {
    let mut disk = Disk::new(
        0,
        0,
        vec![ShotBehavior::Normal],
        resolve_disk_type(0),
        4000,
        0,
        1000,
        resolve_disk_color(0),
    );
    disk.gain_age(u32::MAX);
    assert_eq!(disk.age, u32::MAX);
    disk.gain_age(1);
    assert_eq!(disk.age, 0);
}

#[test]
fn test_vec2d_quarter_turns() {
    assert_eq!(Vec2d::new(0, 1000), Vec2d { x: 0, y: 1000 });
    assert_eq!(Vec2d::new(90000, 1000), Vec2d { x: 1000, y: 0 });
    assert_eq!(Vec2d::new(180000, 1000), Vec2d { x: 0, y: -1000 });
    assert_eq!(Vec2d::new(270000, 1000), Vec2d { x: -1000, y: 0 });
    assert_eq!(Vec2d::new(360000, 1000), Vec2d { x: 0, y: 1000 });
}

#[test]
fn test_vec2d_table_angles() {
    // milli-sine values at whole degrees: sin 30 = 0.500, sin 45 = 0.707.
    assert_eq!(Vec2d::new(30000, 1000), Vec2d { x: 500, y: 866 });
    assert_eq!(Vec2d::new(45000, 1000), Vec2d { x: 707, y: 707 });
    // negative angles wrap around the turn.
    assert_eq!(Vec2d::new(-90000, 1000), Vec2d { x: -1000, y: 0 });
}

#[test]
fn test_vec2d_angle_change_recomposes() {
    let mut v = Vec2d::new(0, 1000);
    v.angle_change(90000, 2000);
    assert_eq!(v, Vec2d { x: 2000, y: 0 });
}

#[test]
fn test_disk_reflect_budget_from_behaviors() {
    let d = Disk::new(
        0,
        0,
        vec![
            ShotBehavior::Normal,
            ShotBehavior::Reflect(None),
            ShotBehavior::Reflect(Some(3)),
        ],
        resolve_disk_type(0),
        4000,
        0,
        1000,
        resolve_disk_color(0),
    );
    // the first Reflect that carries a budget supplies it.
    assert_eq!(d.reflect_count, Some(3));
    let e = Disk::new(
        0,
        0,
        vec![ShotBehavior::Normal],
        resolve_disk_type(0),
        4000,
        0,
        1000,
        resolve_disk_color(0),
    );
    assert_eq!(e.reflect_count, None);
}

#[test]
fn test_rectangle_hit_test() {
    let a = Rectangle::new(0, 0, 10000, 10000);
    let b = Rectangle::new(5000, 5000, 10000, 10000);
    let c = Rectangle::new(10000, 0, 10000, 10000);
    assert!(a.hit_test(&b));
    assert!(b.hit_test(&a));
    // touching edges do not count as overlap.
    assert!(!a.hit_test(&c));
}
