use diskshot::disk::{resolve_disk_color, resolve_disk_type, DiskColor, DiskType};
use diskshot::setting::{Setting, SettingOptions};
use diskshot::shot::{resolve_shot_behavior, resolve_shot_type, ShotBehavior, ShotType};
use diskshot::convert_interval_to_frame;

fn bare_options() -> SettingOptions {
    SettingOptions {
        width: 500000,
        height: 500000,
        iteration_ms: 1000,
        start_at: 0,
        end_at: 100,
        disk_size: None,
        shot_type: None,
        disk_type: None,
        disk_color: None,
        shot_speed: None,
        shot_way_num: None,
        shot_interval: None,
        shot_behavior: None,
        speed_change_per: None,
        speed_change_interval: None,
        x_coordinate: None,
        y_coordinate: None,
        reflect_count: None,
        sleep_interval: None,
        sleep_timeout: None,
        degree_change_by: None,
        gravity_direction: None,
        gravity_change_per: None,
    }
}

#[test]
fn test_disk_type_resolve() {
    let results = vec![
        DiskType::Oval,
        DiskType::Dot,
        DiskType::Circle,
        DiskType::Orb,
        DiskType::Arrow,
        DiskType::Oval,
    ];
    let nums = (0..=5).into_iter().collect::<Vec<_>>();
    for (i, &num) in nums.iter().enumerate() {
        let disk_type = resolve_disk_type(num);
        assert_eq!(results[i], disk_type);
    }
}

#[test]
fn test_disk_color_resolve() {
    assert_eq!(resolve_disk_color(0), DiskColor::Red);
    assert_eq!(resolve_disk_color(4), DiskColor::LightBlue);
    assert_eq!(resolve_disk_color(8), DiskColor::Pink);
    assert_eq!(resolve_disk_color(9), DiskColor::Red);
}

#[test]
fn test_shot_type_resolve() {
    assert_eq!(resolve_shot_type(0), ShotType::Random);
    assert_eq!(resolve_shot_type(1), ShotType::Circle);
    assert_eq!(resolve_shot_type(2), ShotType::Linear);
    assert_eq!(resolve_shot_type(7), ShotType::Random);
}

#[test]
fn test_shot_behavior_resolve() {
    assert_eq!(resolve_shot_behavior(0), ShotBehavior::Normal);
    assert_eq!(resolve_shot_behavior(1), ShotBehavior::SpeedUp(0, 0));
    assert_eq!(resolve_shot_behavior(2), ShotBehavior::SpeedDown(0, 0));
    assert_eq!(resolve_shot_behavior(3), ShotBehavior::Reflect(None));
    assert_eq!(resolve_shot_behavior(4), ShotBehavior::Random);
    assert_eq!(resolve_shot_behavior(5), ShotBehavior::Sleep(0, 0));
    assert_eq!(resolve_shot_behavior(6), ShotBehavior::Gravity(0, 100));
    assert_eq!(resolve_shot_behavior(99), ShotBehavior::Normal);
}

#[test]
fn test_setting_defaults() {
    let s = Setting::new(&bare_options());
    assert_eq!(s.disk_size, 4000);
    assert_eq!(s.shot_speed, 1000);
    assert_eq!(s.shot_way_num, 6);
    assert_eq!(s.shot_interval, 500);
    assert_eq!(s.x_coordinate, 250000);
    assert_eq!(s.y_coordinate, 250000);
    assert_eq!(s.degree_change_by, 0);
    assert_eq!(s.sleep_interval, 0);
    assert_eq!(s.sleep_timeout, 0);
    assert_eq!(s.shot_behavior, vec![ShotBehavior::Normal]);
    assert_eq!(s.disk_type, DiskType::Oval);
    assert_eq!(s.disk_color, DiskColor::Orange);
    assert_eq!(s.shot_type, ShotType::Random);
}

#[test]
fn test_setting_clamps() {
    let mut o = bare_options();
    o.shot_speed = Some(i64::MAX);
    o.disk_size = Some(-5);
    o.sleep_interval = Some(-3);
    o.sleep_timeout = Some(i32::MAX);
    o.degree_change_by = Some(99999999);
    let s = Setting::new(&o);
    assert_eq!(s.shot_speed, 1000000000);
    assert_eq!(s.disk_size, 0);
    assert_eq!(s.sleep_interval, 0);
    assert_eq!(s.sleep_timeout, 1000000000);
    assert_eq!(s.degree_change_by, 360000);
}

#[test]
fn test_convert_interval_to_frame() {
    assert_eq!(convert_interval_to_frame(500), 30);
    assert_eq!(convert_interval_to_frame(200), 12);
    assert_eq!(convert_interval_to_frame(0), 0);
    assert_eq!(convert_interval_to_frame(1000), 60);
}

#[test]
fn test_convert_subframe_interval_is_one_frame() {
    // intervals shorter than one frame quantize to a period of one
    // frame, never to the fire-every-frame period of zero.
    assert_eq!(convert_interval_to_frame(1), 1);
    assert_eq!(convert_interval_to_frame(16), 1);
    assert_eq!(convert_interval_to_frame(17), 1);
    assert_eq!(convert_interval_to_frame(33), 1);
    assert_eq!(convert_interval_to_frame(34), 2);
}
