use diskshot::screen::init_screen;
use diskshot::setting::SettingOptions;

#[test]
fn test_radial_world_spawns_moves_and_culls() {
    // a 500 x 500 world with a single radial emitter: 4 ways, speed 1.0,
    // origin at the center, a zero interval so it fires every frame.
    let options = SettingOptions {
        width: 500000,
        height: 500000,
        iteration_ms: 1000,
        start_at: 0,
        end_at: 2000,
        disk_size: None,
        shot_type: Some(1),
        disk_type: None,
        disk_color: None,
        shot_speed: None,
        shot_way_num: Some(4),
        shot_interval: Some(0),
        shot_behavior: None,
        speed_change_per: None,
        speed_change_interval: None,
        x_coordinate: None,
        y_coordinate: None,
        reflect_count: None,
        sleep_interval: None,
        sleep_timeout: None,
        degree_change_by: None,
        gravity_direction: None,
        gravity_change_per: None,
    };
    let mut screen = init_screen(&options);
    assert_eq!(screen.disks.len(), 4096);
    assert!(screen.disks.iter().all(|s| s.is_none()));

    // one tick: the burst of 4 appears at the center and takes its first
    // step outward, one unit along each quarter-turn direction.
    screen.do_frame();
    let first: Vec<_> = screen.disks[0..4]
        .iter()
        .map(|s| s.as_ref().unwrap())
        .collect();
    assert_eq!((first[0].x, first[0].y), (250000, 251000));
    assert_eq!((first[1].x, first[1].y), (251000, 250000));
    assert_eq!((first[2].x, first[2].y), (250000, 249000));
    assert_eq!((first[3].x, first[3].y), (249000, 250000));
    assert_eq!(first[0].vec2d.x, 0);
    assert_eq!(first[0].vec2d.y, 1000);
    assert_eq!(first[3].vec2d.x, -1000);
    assert_eq!(first[3].vec2d.y, 0);

    // the first burst travels one unit per tick; its box leaves the
    // world when the distance from the center passes 250 + size, on
    // tick 255. Until then its slots stay occupied.
    for _ in 1..254 {
        screen.do_frame();
        assert!(screen.disks[0].is_some());
        assert!(screen.disks[3].is_some());
    }
    let d0 = screen.disks[0].as_ref().unwrap();
    assert_eq!(d0.y, 250000 + 254 * 1000);
    screen.do_frame();
    // the whole first burst is culled on the same tick; its slots are
    // empty until the next burst reuses them.
    assert!(screen.disks[0].is_none());
    assert!(screen.disks[1].is_none());
    assert!(screen.disks[2].is_none());
    assert!(screen.disks[3].is_none());
}
