use diskshot::screen::init_screen;
use diskshot::setting::SettingOptions;

fn options() -> SettingOptions {
    SettingOptions {
        width: 500000,
        height: 500000,
        iteration_ms: 1000,
        start_at: 0,
        end_at: 100,
        disk_size: None,
        shot_type: Some(1),
        disk_type: None,
        disk_color: None,
        shot_speed: None,
        shot_way_num: Some(2),
        shot_interval: Some(500),
        shot_behavior: None,
        speed_change_per: None,
        speed_change_interval: None,
        x_coordinate: None,
        y_coordinate: None,
        reflect_count: None,
        sleep_interval: None,
        sleep_timeout: None,
        degree_change_by: None,
        gravity_direction: None,
        gravity_change_per: None,
    }
}

#[test]
fn test_init_screen_builds_first_emitter() {
    let screen = init_screen(&options());
    assert_eq!(screen.width, 500000);
    assert_eq!(screen.height, 500000);
    assert_eq!(screen.get_thread_ids(), vec![1]);
    assert_eq!(screen.schedule.threads[0].setting.shot_way_num, 2);
    // a 500 ms interval is 30 frames: frames 0, 30, 60, 90 of the window.
    assert_eq!(screen.schedule.events.len(), 4);
    assert_eq!(screen.schedule.end_at, 100);
}

#[test]
fn test_upsert_creates_and_updates() {
    let mut screen = init_screen(&options());
    // a fresh emitter without an id gets the next one.
    let mut o2 = options();
    o2.shot_way_num = Some(5);
    let id2 = screen.upsert_thread_setting(None, &o2);
    assert_eq!(id2, Some(2));
    assert_eq!(screen.get_thread_ids(), vec![1, 2]);
    // updating an existing id replaces its setting in place.
    let mut o3 = options();
    o3.shot_way_num = Some(9);
    let id = screen.upsert_thread_setting(Some(1), &o3);
    assert_eq!(id, Some(1));
    assert_eq!(screen.get_thread_ids(), vec![1, 2]);
    assert_eq!(screen.schedule.threads[0].setting.shot_way_num, 9);
    // an unknown id creates a new emitter under that id.
    let id9 = screen.upsert_thread_setting(Some(9), &options());
    assert_eq!(id9, Some(9));
    assert_eq!(screen.get_thread_ids(), vec![1, 2, 9]);
}
