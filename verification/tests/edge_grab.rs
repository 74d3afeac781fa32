use windows_gaming_driver::edge_grab::{Config, Monitor, Rectangle, Point, EdgeGrab, State};

fn rect(x: i32, y: i32, width: i32, height: i32) -> Rectangle {
    Rectangle { x, y, width, height }
}

/// A host monitor on the left, the guest's monitor on its right.
fn layout() -> Config {
    Config {
        monitors: vec![
            Monitor { bounds: rect(0, 0, 1920, 1080), vbounds: rect(0, 0, 1920, 1080), is_windows: false, connected: true },
            Monitor { bounds: rect(1920, 0, 1920, 1080), vbounds: rect(1920, 0, 1920, 1080), is_windows: true, connected: false },
        ],
    }
}

#[test]
fn rectangle_contains_excludes_far_edges() {
    let r = rect(10, 20, 100, 50);
    assert!(r.contains(Point::from((10, 20))));
    assert!(r.contains(Point { x: 109, y: 69 }));
    assert!(!r.contains(Point { x: 110, y: 30 }));
    assert!(!r.contains(Point { x: 50, y: 19 }));
}

#[test]
fn pointer_enters_guest_over_edge() {
    let cfg = layout();
    let mut g = EdgeGrab::new(&cfg);
    assert_eq!(g.state, State::Detached);
    assert_eq!(g.old_monitor, cfg.monitors[0]);
    assert!(g.check_motion(&cfg, 1000, 500));
    assert_eq!(g.on_motion(&cfg, 1000, 500), None);
    assert!(g.check_motion(&cfg, 1919, 500));
    assert_eq!(g.on_motion(&cfg, 1919, 500), None);
    assert_eq!(g.state, State::Detached);
}

#[test]
fn pointer_motion_onto_guest_monitor_hands_over() {
    // the guest's monitor comes first; the host monitor's place on the
    // virtual desktop is shifted so that the pointer lands on the guest's
    let cfg = Config {
        monitors: vec![
            Monitor { bounds: rect(1920, 0, 1920, 1080), vbounds: rect(1920, 0, 1920, 1080), is_windows: true, connected: false },
            Monitor { bounds: rect(0, 0, 1920, 1080), vbounds: rect(100, 0, 1920, 1080), is_windows: false, connected: true },
        ],
    };
    let mut g = EdgeGrab::new(&cfg);
    assert_eq!(g.old_monitor, cfg.monitors[1]);
    assert!(g.check_motion(&cfg, 1900, 300));
    let r = g.on_motion(&cfg, 1900, 300);
    assert_eq!(r, Some(Point { x: 1900 - 1920 + 100, y: 300 }));
    assert_eq!(g.state, State::TryAttach);
    assert_eq!(g.old_monitor, cfg.monitors[0]);
    assert_eq!(g.on_motion(&cfg, 1900, 300), None);
}

#[test]
fn guest_pointer_leaving_goes_to_host() {
    let cfg = layout();
    let mut g = EdgeGrab::new(&cfg);
    g.attached();
    assert!(g.check_guest_report(&cfg, 100, 100));
    assert_eq!(g.on_guest_pointer(&cfg, 100, 100), Some(Point { x: 2020, y: 100 }));
    assert_eq!(g.state, State::TryDetach);
    assert_eq!(g.on_guest_pointer(&cfg, 100, 100), None);
    g.detached();
    assert_eq!(g.state, State::Detached);
}

#[test]
fn guest_pointer_at_right_edge_of_unconnected_monitor_wraps() {
    let cfg = layout();
    let mut g = EdgeGrab::new(&cfg);
    g.attached();
    // right edge: x >= width - 1, the monitor is not connected
    assert_eq!(g.on_guest_pointer(&cfg, 1919, 10), Some(Point { x: 1919 + 1920 - 1920, y: 10 }));
}

#[test]
fn guest_pointer_on_guest_area_stays() {
    let mut cfg = layout();
    cfg.monitors[1].vbounds = rect(0, 0, 1920, 1080);
    cfg.monitors[0].vbounds = rect(5000, 0, 10, 10);
    let mut g = EdgeGrab::new(&cfg);
    g.attached();
    assert_eq!(g.on_guest_pointer(&cfg, 100, 100), None);
    assert_eq!(g.state, State::Attached);
}
