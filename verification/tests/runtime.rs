use android_kvm::android::AndroidBounds;
use android_kvm::edge::{Edge, Pointer, ScreenBounds};
use android_kvm::runtime::{android_entry_pointer, should_release};

#[test]
fn right_edge_starts_on_android_left_side() {
    assert_eq!(
        android_entry_pointer(
            Edge::Right,
            AndroidBounds {
                width: 1080,
                height: 2400,
            },
            ScreenBounds {
                width: 1920,
                height: 1080,
            },
        ),
        Pointer { x: 0, y: 1200 },
    );
}

#[test]
fn right_edge_releases_when_moving_past_android_left_side() {
    assert!(should_release(
        Edge::Right,
        Pointer { x: -1, y: 1200 },
        AndroidBounds {
            width: 1080,
            height: 2400,
        },
    ));
}

use android_kvm::edge::Focus;
use android_kvm::runtime::{
    audio_wanted, host_return_pointer, AndroidStep, RuntimeState, Transition,
};

#[test]
fn entry_pointer_faces_the_host_for_each_edge() {
    let android = AndroidBounds {
        width: 1080,
        height: 2400,
    };
    let host = ScreenBounds {
        width: 1920,
        height: 1080,
    };
    assert_eq!(
        android_entry_pointer(Edge::Left, android, host),
        Pointer { x: 1079, y: 1200 }
    );
    assert_eq!(
        android_entry_pointer(Edge::Top, android, host),
        Pointer { x: 540, y: 2399 }
    );
    assert_eq!(
        android_entry_pointer(Edge::Bottom, android, host),
        Pointer { x: 540, y: 0 }
    );
    assert_eq!(
        android_entry_pointer(Edge::Left, AndroidBounds { width: i32::MIN, height: -3 }, host),
        Pointer { x: i32::MIN, y: -1 }
    );
}

#[test]
fn return_pointer_sits_inside_the_host_edge() {
    let host = ScreenBounds {
        width: 1920,
        height: 1080,
    };
    assert_eq!(host_return_pointer(Edge::Left, host), Pointer { x: 1, y: 540 });
    assert_eq!(host_return_pointer(Edge::Right, host), Pointer { x: 1918, y: 540 });
    assert_eq!(host_return_pointer(Edge::Top, host), Pointer { x: 960, y: 1 });
    assert_eq!(host_return_pointer(Edge::Bottom, host), Pointer { x: 960, y: 1078 });
}

#[test]
fn release_happens_only_past_the_side_facing_the_host() {
    let android = AndroidBounds {
        width: 1080,
        height: 2400,
    };
    assert!(!should_release(Edge::Right, Pointer { x: 0, y: 1200 }, android));
    assert!(should_release(Edge::Left, Pointer { x: 1080, y: 0 }, android));
    assert!(!should_release(Edge::Left, Pointer { x: 1079, y: 0 }, android));
    assert!(should_release(Edge::Top, Pointer { x: 0, y: 2400 }, android));
    assert!(should_release(Edge::Bottom, Pointer { x: 0, y: -1 }, android));
    assert!(!should_release(Edge::Bottom, Pointer { x: -5, y: 0 }, android));
}

#[test]
fn runtime_state_enters_and_leaves_android() {
    let host = ScreenBounds {
        width: 1920,
        height: 1080,
    };
    let mut state = RuntimeState::new(Edge::Right, 24, 4, host);
    assert_eq!(state.anchor(), Pointer { x: 960, y: 540 });
    assert!(!state.has_session());

    assert!(state.host_step_fits());
    let focus = state.host_step(Pointer { x: 1800, y: 500 });
    assert_eq!(focus, Focus::Host);
    assert_eq!(state.transition(focus), Transition::Stay);

    let focus = state.host_step(Pointer { x: 1900, y: 500 });
    assert_eq!(focus, Focus::Android);
    assert_eq!(state.transition(focus), Transition::StartAndroid);
    let entry = state.begin_session(AndroidBounds {
        width: 1080,
        height: 2400,
    });
    assert_eq!(entry, Pointer { x: 0, y: 1200 });
    assert!(state.has_session());

    assert_eq!(state.android_step(0, 0), AndroidStep::Idle);
    assert!(state.motion_fits(30, -10));
    let step = state.android_step(30, -10);
    assert_eq!(
        step,
        AndroidStep::Move {
            pointer: Pointer { x: 30, y: 1190 },
            dx: 30,
            dy: -10
        }
    );
    assert_eq!(state.transition(step.focus()), Transition::Stay);

    let step = state.android_step(-31, 0);
    assert_eq!(step, AndroidStep::Release);
    assert_eq!(step.focus(), Focus::Host);
    assert_eq!(state.transition(step.focus()), Transition::StopAndroid);
    assert_eq!(state.end_session(), Pointer { x: 1918, y: 540 });
    assert!(!state.has_session());
}

#[test]
fn returned_pointer_stays_on_host_until_swiped_again() {
    let host = ScreenBounds {
        width: 1920,
        height: 1080,
    };
    let mut state = RuntimeState::new(Edge::Right, 24, 4, host);
    assert_eq!(state.host_step(Pointer { x: 1919, y: 500 }), Focus::Android);
    state.begin_session(AndroidBounds {
        width: 1080,
        height: 2400,
    });
    assert_eq!(state.android_step(-1, 0), AndroidStep::Release);
    let back = state.end_session();
    assert_eq!(back, Pointer { x: 1918, y: 540 });
    assert_eq!(state.host_step(back), Focus::Host);
    assert_eq!(state.host_step(Pointer { x: 1919, y: 540 }), Focus::Host);
    assert_eq!(state.host_step(Pointer { x: 1895, y: 540 }), Focus::Host);
    let focus = state.host_step(Pointer { x: 1896, y: 540 });
    assert_eq!(focus, Focus::Android);
    assert_eq!(state.transition(focus), Transition::StartAndroid);
}

#[test]
fn audio_follows_the_settings() {
    assert!(audio_wanted(true, true, Focus::Host));
    assert!(audio_wanted(true, true, Focus::Android));
    assert!(!audio_wanted(true, false, Focus::Host));
    assert!(audio_wanted(true, false, Focus::Android));
    assert!(!audio_wanted(false, true, Focus::Android));
    assert!(!audio_wanted(false, false, Focus::Android));
}

#[test]
fn exited_session_returns_focus_to_host() {
    let host = ScreenBounds {
        width: 1920,
        height: 1080,
    };
    let mut state = RuntimeState::new(Edge::Left, 24, 4, host);
    assert_eq!(state.host_step(Pointer { x: 0, y: 500 }), Focus::Android);
    state.begin_session(AndroidBounds {
        width: 100,
        height: 200,
    });
    state.session_exited();
    assert!(!state.has_session());
    assert_eq!(state.host_step(Pointer { x: 0, y: 500 }), Focus::Host);
    assert_eq!(state.host_step(Pointer { x: 100, y: 500 }), Focus::Host);
    assert_eq!(state.host_step(Pointer { x: 0, y: 500 }), Focus::Android);
    assert_eq!(state.transition(Focus::Host), Transition::Stay);
    assert_eq!(state.transition(Focus::Android), Transition::StartAndroid);
}
