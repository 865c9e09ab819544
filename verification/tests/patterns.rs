use diskshot::event_thread::{generate_burst, generate_wall_burst, EventThread};
use diskshot::setting::{Setting, SettingOptions};
use diskshot::shot::ShotBehavior;

fn options() -> SettingOptions {
    SettingOptions {
        width: 500000,
        height: 500000,
        iteration_ms: 1000,
        start_at: 0,
        end_at: 100,
        disk_size: None,
        shot_type: None,
        disk_type: None,
        disk_color: None,
        shot_speed: None,
        shot_way_num: None,
        shot_interval: None,
        shot_behavior: None,
        speed_change_per: None,
        speed_change_interval: None,
        x_coordinate: None,
        y_coordinate: None,
        reflect_count: None,
        sleep_interval: None,
        sleep_timeout: None,
        degree_change_by: None,
        gravity_direction: None,
        gravity_change_per: None,
    }
}

#[test]
fn test_radial_burst_even_spacing() {
    let mut o = options();
    o.shot_type = Some(1);
    o.shot_way_num = Some(4);
    let s = Setting::new(&o);
    let burst = generate_burst(&s, 0);
    assert_eq!(burst.len(), 4);
    let angles: Vec<i64> = burst.iter().map(|d| d.angle).collect();
    assert_eq!(angles, vec![0, 90000, 180000, 270000]);
    for d in &burst {
        assert_eq!(d.x, 250000);
        assert_eq!(d.y, 250000);
        assert_eq!(d.speed, 1000);
    }
}

#[test]
fn test_radial_burst_drift_offset() {
    let mut o = options();
    o.shot_type = Some(1);
    o.shot_way_num = Some(3);
    o.degree_change_by = Some(5000);
    let s = Setting::new(&o);
    // the second burst is rotated by the drift times the burst index.
    let burst = generate_burst(&s, 2);
    assert_eq!(burst.len(), 3);
    let angles: Vec<i64> = burst.iter().map(|d| d.angle).collect();
    assert_eq!(angles, vec![10000, 130000, 250000]);
}

#[test]
fn test_zero_ways_empty_all_patterns() {
    for ty in [0u32, 1, 2] {
        let mut o = options();
        o.shot_type = Some(ty);
        o.shot_way_num = Some(0);
        let s = Setting::new(&o);
        let burst = generate_burst(&s, 1);
        assert_eq!(burst.len(), 0);
    }
}

#[test]
fn test_linear_fan_angles() {
    let mut o = options();
    o.shot_type = Some(2);
    o.shot_way_num = Some(5);
    let s = Setting::new(&o);
    let burst = generate_burst(&s, 0);
    assert_eq!(burst.len(), 5);
    let angles: Vec<i64> = burst.iter().map(|d| d.angle).collect();
    // a 100 degree fan: 20 degree steps starting 50 degrees off center.
    assert_eq!(angles, vec![-50000, -30000, -10000, 10000, 30000]);
}

#[test]
fn test_random_burst_angles_in_range() {
    let mut o = options();
    o.shot_type = Some(0);
    o.shot_way_num = Some(32);
    let s = Setting::new(&o);
    let burst = generate_burst(&s, 0);
    assert_eq!(burst.len(), 32);
    for d in &burst {
        assert!(0 <= d.angle && d.angle < 360000);
        assert_eq!(d.x, 250000);
        assert_eq!(d.y, 250000);
    }
}

#[test]
fn test_wall_row_positions() {
    let mut o = options();
    o.shot_way_num = Some(4);
    let s = Setting::new(&o);
    let burst = generate_wall_burst(&s, 400000, 10000);
    assert_eq!(burst.len(), 4);
    let xs: Vec<i64> = burst.iter().map(|d| d.x).collect();
    assert_eq!(xs, vec![50000, 150000, 250000, 350000]);
    for d in &burst {
        assert_eq!(d.y, 10000);
        assert_eq!(d.angle, 0);
    }
}

#[test]
fn test_burst_resolves_behavior_templates() {
    let mut o = options();
    o.shot_type = Some(1);
    o.shot_way_num = Some(1);
    o.shot_behavior = Some(vec![5, 3, 1]);
    o.sleep_interval = Some(10);
    o.sleep_timeout = Some(5);
    o.reflect_count = Some(2);
    o.speed_change_per = Some(10);
    o.speed_change_interval = Some(7);
    let s = Setting::new(&o);
    let burst = generate_burst(&s, 0);
    assert_eq!(burst.len(), 1);
    assert_eq!(
        burst[0].behavior,
        vec![
            ShotBehavior::Sleep(10, 5),
            ShotBehavior::Reflect(Some(2)),
            ShotBehavior::SpeedUp(7, 100),
        ]
    );
    assert_eq!(burst[0].reflect_count, Some(2));
}

#[test]
fn test_spawn_disks_increments_iteration() {
    let mut o = options();
    o.shot_type = Some(1);
    o.shot_way_num = Some(2);
    let s = Setting::new(&o);
    let mut thread = EventThread::new(7, s);
    let mut pool: Vec<Option<diskshot::disk::Disk>> = vec![None; 8];
    thread.spawn_disks(&mut pool);
    assert_eq!(thread.iter, 1);
    thread.spawn_disks(&mut pool);
    assert_eq!(thread.iter, 2);
    let occupied = pool.iter().filter(|s| s.is_some()).count();
    assert_eq!(occupied, 4);
}
