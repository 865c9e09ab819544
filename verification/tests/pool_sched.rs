use diskshot::disk::{resolve_disk_color, resolve_disk_type, Disk};
use diskshot::event_thread::EventThread;
use diskshot::pool::assign_disks;
use diskshot::schedule::Schedule;
use diskshot::setting::{Setting, SettingOptions};
use diskshot::shot::ShotBehavior;

fn options() -> SettingOptions {
    SettingOptions {
        width: 500000,
        height: 500000,
        iteration_ms: 1000,
        start_at: 0,
        end_at: 100,
        disk_size: None,
        shot_type: None,
        disk_type: None,
        disk_color: None,
        shot_speed: None,
        shot_way_num: None,
        shot_interval: None,
        shot_behavior: None,
        speed_change_per: None,
        speed_change_interval: None,
        x_coordinate: None,
        y_coordinate: None,
        reflect_count: None,
        sleep_interval: None,
        sleep_timeout: None,
        degree_change_by: None,
        gravity_direction: None,
        gravity_change_per: None,
    }
}

fn plain_disk(tag: i64) -> Disk {
    Disk::new(
        tag,
        0,
        vec![ShotBehavior::Normal],
        resolve_disk_type(0),
        4000,
        0,
        1000,
        resolve_disk_color(0),
    )
}

#[test]
fn test_pool_saturation_drops_excess() {
    // a burst larger than the free capacity fills every slot and drops
    // the rest silently.
    let mut pool: Vec<Option<Disk>> = vec![None, None, None];
    let burst: Vec<Disk> = (0..5).map(plain_disk).collect();
    assign_disks(&mut pool, burst);
    assert_eq!(pool.len(), 3);
    assert_eq!(pool.iter().filter(|s| s.is_some()).count(), 3);
    // slots fill left to right with the first entities of the burst.
    assert_eq!(pool[0].as_ref().unwrap().x, 0);
    assert_eq!(pool[1].as_ref().unwrap().x, 1);
    assert_eq!(pool[2].as_ref().unwrap().x, 2);
}

#[test]
fn test_pool_spawn_keeps_occupied_slots() {
    let mut pool: Vec<Option<Disk>> = vec![None, Some(plain_disk(77)), None];
    assign_disks(&mut pool, vec![plain_disk(1), plain_disk(2)]);
    assert_eq!(pool[0].as_ref().unwrap().x, 1);
    assert_eq!(pool[1].as_ref().unwrap().x, 77);
    assert_eq!(pool[2].as_ref().unwrap().x, 2);
}

#[test]
fn test_scheduler_wrap_after_cycle() {
    // an emitter with a window ending at frame 100 sets the cycle length
    // to 100: after 100 ticks the cursor is back at zero.
    let mut o = options();
    o.end_at = 100;
    o.shot_interval = Some(2000);
    let s = Setting::new(&o);
    let mut schedule = Schedule::new();
    let id = schedule.generate_id();
    schedule.subscribe_thread(EventThread::new(id, s));
    schedule.refresh_events();
    assert_eq!(schedule.end_at, 100);
    for _ in 0..100 {
        schedule.iterate();
    }
    assert_eq!(schedule.iter, 0);
}

#[test]
fn test_scheduler_frame_zero_event_fires_again() {
    // a 2000 ms interval is 120 frames, longer than the 100 frame cycle:
    // the emitter fires on frame 0 only. After a full cycle the frame 0
    // event fires again.
    let mut o = options();
    o.end_at = 100;
    o.shot_interval = Some(2000);
    o.shot_type = Some(1);
    o.shot_way_num = Some(1);
    let s = Setting::new(&o);
    let mut schedule = Schedule::new();
    let id = schedule.generate_id();
    schedule.subscribe_thread(EventThread::new(id, s));
    schedule.refresh_events();
    let mut pool: Vec<Option<Disk>> = vec![None; 8];
    // cursor is at frame 0: the event fires.
    schedule.walkthrough_events(&mut pool);
    assert_eq!(pool.iter().filter(|s| s.is_some()).count(), 1);
    for _ in 0..50 {
        schedule.iterate();
        schedule.walkthrough_events(&mut pool);
    }
    // frames 1..=50 carry no event.
    assert_eq!(pool.iter().filter(|s| s.is_some()).count(), 1);
    for _ in 0..50 {
        schedule.iterate();
    }
    assert_eq!(schedule.iter, 0);
    schedule.walkthrough_events(&mut pool);
    assert_eq!(pool.iter().filter(|s| s.is_some()).count(), 2);
}

#[test]
fn test_zero_interval_fires_every_frame() {
    // a frame period of zero means every frame of the window fires.
    let mut o = options();
    o.end_at = 10;
    o.shot_interval = Some(0);
    o.shot_type = Some(1);
    o.shot_way_num = Some(1);
    let s = Setting::new(&o);
    let mut schedule = Schedule::new();
    let id = schedule.generate_id();
    schedule.subscribe_thread(EventThread::new(id, s));
    schedule.refresh_events();
    assert_eq!(schedule.events.len(), 11);
    let mut pool: Vec<Option<Disk>> = vec![None; 16];
    for _ in 0..5 {
        schedule.iterate();
        schedule.walkthrough_events(&mut pool);
    }
    assert_eq!(pool.iter().filter(|s| s.is_some()).count(), 5);
}

#[test]
fn test_subscribe_replaces_setting_keeps_iteration() {
    let s1 = Setting::new(&options());
    let mut o2 = options();
    o2.shot_way_num = Some(2);
    let s2 = Setting::new(&o2);
    let mut schedule = Schedule::new();
    let id = schedule.generate_id();
    let mut t = EventThread::new(id, s1);
    t.iter = 9;
    schedule.subscribe_thread(t);
    assert_eq!(schedule.threads.len(), 1);
    schedule.subscribe_thread(EventThread::new(id, s2));
    assert_eq!(schedule.threads.len(), 1);
    assert_eq!(schedule.threads[0].iter, 9);
    assert_eq!(schedule.threads[0].setting.shot_way_num, 2);
    // a different id appends instead.
    let id2 = schedule.generate_id();
    schedule.subscribe_thread(EventThread::new(id2, Setting::new(&options())));
    assert_eq!(schedule.threads.len(), 2);
}

#[test]
fn test_dispatch_unknown_id_is_noop() {
    let mut o = options();
    o.end_at = 5;
    o.shot_interval = Some(0);
    let s = Setting::new(&o);
    let mut schedule = Schedule::new();
    schedule.subscribe_thread(EventThread::new(42, s));
    schedule.refresh_events();
    // drop the emitter but keep its events: dispatch skips them.
    schedule.threads.clear();
    let mut pool: Vec<Option<Disk>> = vec![None; 4];
    schedule.walkthrough_events(&mut pool);
    assert_eq!(pool.iter().filter(|s| s.is_some()).count(), 0);
}
