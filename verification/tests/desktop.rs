use screen_ruler::desktop::{match_monitor, monitor_at_virtual, position_order, MonitorBounds, MonitorId};

fn bounds(x: i32, y: i32, width: u32, height: u32) -> MonitorBounds {
    MonitorBounds { x, y, width, height }
}

#[test]
fn desktop_hit_tests_the_monitor_under_a_virtual_point() {
    let monitors = vec![bounds(0, 0, 64, 48), bounds(64, 0, 64, 48)];

    assert_eq!(monitor_at_virtual(&monitors, 10, 10), Some(0));
    assert_eq!(monitor_at_virtual(&monitors, 70, 10), Some(1));
    assert_eq!(monitor_at_virtual(&monitors, 500, 10), None);
    assert_eq!(monitor_at_virtual(&monitors, -1, 10), None);
}

#[test]
fn a_monitor_holds_its_top_left_but_not_its_far_edges() {
    let m = bounds(-100, 20, 100, 10);
    assert!(m.contains(-100, 20));
    assert!(m.contains(-1, 29));
    assert!(!m.contains(0, 20));
    assert!(!m.contains(-50, 30));
    let huge = bounds(i32::MAX, i32::MAX, u32::MAX, u32::MAX);
    assert!(huge.contains(i32::MAX, i32::MAX));
}

#[test]
fn monitors_are_ordered_top_to_bottom_then_left_to_right() {
    let positions = vec![(1920, 0), (0, 0), (0, -1080), (0, 0)];
    assert_eq!(position_order(&positions), vec![2, 1, 3, 0]);
    assert_eq!(position_order(&Vec::new()), Vec::<usize>::new());
}

#[test]
fn monitors_are_matched_by_name_then_origin_then_index() {
    let available = vec![
        MonitorId {
            name: Some("DP-1".to_string()),
            position: (0, 0),
        },
        MonitorId {
            name: None,
            position: (1920, 0),
        },
        MonitorId {
            name: Some("HDMI-A-1".to_string()),
            position: (1920, 0),
        },
    ];
    assert_eq!(match_monitor(&available, &"HDMI-A-1".to_string(), (0, 0), 0), Some(2));
    assert_eq!(match_monitor(&available, &"eDP-1".to_string(), (1920, 0), 0), Some(1));
    assert_eq!(match_monitor(&available, &"eDP-1".to_string(), (5, 5), 2), Some(2));
    assert_eq!(match_monitor(&available, &"eDP-1".to_string(), (5, 5), 3), None);
}
