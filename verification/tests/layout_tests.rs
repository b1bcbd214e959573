use adwapach::geometry::Vec2i;
use adwapach::layout::normalize_monitors;
use adwapach::model::{Monitor, MonitorId};

fn monitor(name: &str, x: i32, y: i32, w: i32, h: i32) -> Monitor {
    Monitor::new(
        MonitorId::new(vec![name.len() as u16, 0]),
        name.to_string(),
        Vec2i::new(x, y),
        Vec2i::new(w, h),
    )
}

#[test]
fn normalization_two_monitor_scenario() {
    // Two monitors: (0,0) 1920x1080 and (1920,0) 1280x1024. The union
    // bounding box is 3200x1080, the divider 3200, so every coordinate
    // is an exact fraction over 6400.
    let monitors = vec![
        monitor("first", 0, 0, 1920, 1080),
        monitor("second", 1920, 0, 1280, 1024),
    ];
    let rects = normalize_monitors(&monitors);
    assert_eq!(rects.len(), 2);

    let r0 = rects[0];
    assert_eq!(r0.denom, 6400);
    // Left-top (0, 0.33125), right-bottom (0.6, 0.66875).
    assert_eq!(r0.x0, 0);
    assert_eq!(r0.y0, 2120);
    assert_eq!(r0.x1, 3840);
    assert_eq!(r0.y1, 4280);
    assert_eq!(r0.y0 as f64 / r0.denom as f64, 0.33125);
    assert_eq!(r0.x1 as f64 / r0.denom as f64, 0.6);

    let r1 = rects[1];
    assert_eq!(r1.x0, 3840);
    assert_eq!(r1.x1, 6400);
    assert_eq!(r1.y0, 2120);
    assert_eq!(r1.y1, 4168);
}

#[test]
fn normalization_is_idempotent() {
    let monitors = vec![
        monitor("a", -640, -480, 640, 480),
        monitor("b", 0, 0, 1920, 1080),
        monitor("c", 1920, -200, 800, 600),
    ];
    let first = normalize_monitors(&monitors);
    let second = normalize_monitors(&monitors);
    assert_eq!(first, second);
}

#[test]
fn normalization_contains_all_rects() {
    let monitors = vec![
        monitor("a", -640, -480, 640, 480),
        monitor("b", 0, 0, 1920, 1080),
        monitor("c", 1920, -200, 800, 600),
    ];
    let rects = normalize_monitors(&monitors);
    let mut touches_low = false;
    let mut touches_high = false;
    for r in &rects {
        assert!(0 <= r.x0 && r.x0 < r.x1 && r.x1 <= r.denom);
        assert!(0 <= r.y0 && r.y0 < r.y1 && r.y1 <= r.denom);
        // The divider axis here is x: 2560 wide versus 1560 tall.
        touches_low |= r.x0 == 0;
        touches_high |= r.x1 == r.denom;
    }
    assert!(touches_low);
    assert!(touches_high);
}

#[test]
fn normalization_single_monitor_fills_square() {
    let monitors = vec![monitor("only", 37, -12, 1024, 1024)];
    let rects = normalize_monitors(&monitors);
    assert_eq!(rects.len(), 1);
    let r = rects[0];
    assert_eq!((r.x0, r.y0, r.x1, r.y1, r.denom), (0, 0, 2048, 2048, 2048));
}

#[test]
fn normalization_centers_short_axis() {
    // One monitor twice as wide as tall: the y range is centered.
    let monitors = vec![monitor("wide", 0, 0, 200, 100)];
    let rects = normalize_monitors(&monitors);
    let r = rects[0];
    assert_eq!(r.denom, 400);
    assert_eq!((r.x0, r.x1), (0, 400));
    assert_eq!((r.y0, r.y1), (100, 300));
}

#[test]
fn normalization_empty_yields_empty() {
    let rects = normalize_monitors(&Vec::new());
    assert!(rects.is_empty());
}
