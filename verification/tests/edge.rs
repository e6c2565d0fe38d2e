use android_kvm::edge::{Edge, EdgeSwitch, Focus, Pointer, ScreenBounds};

#[test]
fn switches_to_android_at_right_edge() {
    let mut switch = EdgeSwitch::new(Edge::Right, 1, 4);

    assert_eq!(
        switch.update(
            ScreenBounds {
                width: 1920,
                height: 1080,
            },
            Pointer { x: 1919, y: 500 },
        ),
        Focus::Android,
    );
}

#[test]
fn releases_host_focus_after_moving_back_from_right_edge() {
    let mut switch = EdgeSwitch::new(Edge::Right, 1, 4);
    let bounds = ScreenBounds {
        width: 1920,
        height: 1080,
    };

    switch.update(bounds, Pointer { x: 1919, y: 500 });

    assert_eq!(
        switch.update(bounds, Pointer { x: 1915, y: 500 }),
        Focus::Host,
    );
}

#[test]
fn left_edge_round_trip() {
    let mut switch = EdgeSwitch::new(Edge::Left, 24, 4);
    let bounds = ScreenBounds {
        width: 1920,
        height: 1080,
    };
    assert_eq!(switch.update(bounds, Pointer { x: 30, y: 10 }), Focus::Host);
    assert_eq!(switch.update(bounds, Pointer { x: 24, y: 10 }), Focus::Android);
    assert_eq!(switch.update(bounds, Pointer { x: 3, y: 10 }), Focus::Android);
    assert_eq!(switch.update(bounds, Pointer { x: 4, y: 10 }), Focus::Host);
}

#[test]
fn top_and_bottom_edges_use_the_vertical_axis() {
    let bounds = ScreenBounds {
        width: 1920,
        height: 1080,
    };
    let mut top = EdgeSwitch::new(Edge::Top, 2, 5);
    assert_eq!(top.update(bounds, Pointer { x: 0, y: 3 }), Focus::Host);
    assert_eq!(top.update(bounds, Pointer { x: 0, y: 2 }), Focus::Android);
    assert_eq!(top.update(bounds, Pointer { x: 0, y: 5 }), Focus::Host);

    let mut bottom = EdgeSwitch::new(Edge::Bottom, 2, 5);
    assert_eq!(bottom.update(bounds, Pointer { x: 0, y: 1077 }), Focus::Host);
    assert_eq!(bottom.update(bounds, Pointer { x: 0, y: 1078 }), Focus::Android);
    assert_eq!(bottom.update(bounds, Pointer { x: 0, y: 1076 }), Focus::Android);
    assert_eq!(bottom.update(bounds, Pointer { x: 0, y: 1075 }), Focus::Host);
}

#[test]
fn switch_overflow_check() {
    let switch = EdgeSwitch::new(Edge::Right, 1, 4);
    assert!(switch.update_fits(ScreenBounds {
        width: 1920,
        height: 1080,
    }));
    assert!(!switch.update_fits(ScreenBounds {
        width: i32::MIN,
        height: 1080,
    }));
    let large = EdgeSwitch::new(Edge::Right, u32::MAX, 4);
    assert!(large.update_fits(ScreenBounds {
        width: i32::MAX - 1,
        height: 1080,
    }));
    assert!(!large.update_fits(ScreenBounds {
        width: i32::MAX,
        height: 1080,
    }));
}

#[test]
fn updates_alone_follow_the_edges() {
    let mut switch = EdgeSwitch::new(Edge::Right, 1, 4);
    let bounds = ScreenBounds {
        width: 1920,
        height: 1080,
    };
    assert_eq!(switch.update(bounds, Pointer { x: 1919, y: 10 }), Focus::Android);
    assert_eq!(switch.update(bounds, Pointer { x: 1915, y: 10 }), Focus::Host);
    assert_eq!(switch.update(bounds, Pointer { x: 1919, y: 10 }), Focus::Android);

    let mut overlapping = EdgeSwitch::new(Edge::Right, 24, 4);
    assert_eq!(overlapping.update(bounds, Pointer { x: 1900, y: 10 }), Focus::Android);
    assert_eq!(overlapping.update(bounds, Pointer { x: 1916, y: 10 }), Focus::Host);
    assert_eq!(overlapping.update(bounds, Pointer { x: 1900, y: 10 }), Focus::Android);
}

#[test]
fn released_switch_rearms_only_after_leaving_the_edge() {
    let mut switch = EdgeSwitch::new(Edge::Right, 24, 4);
    let bounds = ScreenBounds {
        width: 1920,
        height: 1080,
    };
    assert_eq!(switch.update(bounds, Pointer { x: 1900, y: 10 }), Focus::Android);
    switch.release();
    assert_eq!(switch.update(bounds, Pointer { x: 1919, y: 10 }), Focus::Host);
    assert_eq!(switch.update(bounds, Pointer { x: 1900, y: 10 }), Focus::Host);
    assert_eq!(switch.update(bounds, Pointer { x: 1800, y: 999 }), Focus::Host);
    assert_eq!(switch.update(bounds, Pointer { x: 1900, y: 0 }), Focus::Android);
}
