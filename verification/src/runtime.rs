//! Geometry and focus decisions of the KVM loop. The loop itself, which polls
//! the host pointer and talks to adb and scrcpy, runs outside the library and
//! asks [`RuntimeState`] what to do at each step.
use vstd::prelude::*;

use crate::android::AndroidBounds;
use crate::edge::{
    next_focus, next_switch, update_fits, Edge, EdgeSwitch, EdgeSwitchView, Focus,
    Pointer, ScreenBounds,
};

verus! {

/// `n / 2` with Rust's rounding toward zero.
pub open spec fn half(n: i32) -> int {
    if n >= 0 {
        n as int / 2
    } else {
        -((-(n as int)) / 2)
    }
}

/// `n - k`, saturating at `i32::MIN`.
pub open spec fn saturating_sub(n: i32, k: i32) -> int {
    if n - k < i32::MIN {
        i32::MIN as int
    } else {
        n - k
    }
}

fn sub_saturating(n: i32, k: i32) -> (r: i32)
    requires
        k >= 0,
    ensures
        r == saturating_sub(n, k),
{
    if n < i32::MIN + k {
        i32::MIN
    } else {
        n - k
    }
}

/// Where the Android pointer starts when focus enters Android through `edge`:
/// on the side of the Android display that faces the host, halfway along it.
pub open spec fn spec_android_entry_pointer(edge: Edge, android: AndroidBounds) -> (int, int) {
    match edge {
        Edge::Left => (saturating_sub(android.width, 1), half(android.height)),
        Edge::Right => (0, half(android.height)),
        Edge::Top => (half(android.width), saturating_sub(android.height, 1)),
        Edge::Bottom => (half(android.width), 0),
    }
}

/// Where the host pointer is put back when focus returns from Android: just
/// inside the host edge that faces the device, halfway along it.
pub open spec fn spec_host_return_pointer(edge: Edge, host: ScreenBounds) -> (int, int) {
    match edge {
        Edge::Left => (1, half(host.height)),
        Edge::Right => (saturating_sub(host.width, 2), half(host.height)),
        Edge::Top => (half(host.width), 1),
        Edge::Bottom => (half(host.width), saturating_sub(host.height, 2)),
    }
}

/// The Android pointer has left the Android display through the side that
/// faces the host.
pub open spec fn spec_should_release(edge: Edge, pointer: Pointer, android: AndroidBounds) -> bool {
    match edge {
        Edge::Left => pointer.x >= android.width,
        Edge::Right => pointer.x < 0,
        Edge::Top => pointer.y >= android.height,
        Edge::Bottom => pointer.y < 0,
    }
}

/// The pointer position at which focus enters Android; the host bounds do not
/// matter.
pub fn android_entry_pointer(edge: Edge, android: AndroidBounds, _host: ScreenBounds) -> (p:
    Pointer)
    ensures
        (p.x as int, p.y as int) == spec_android_entry_pointer(edge, android),
{
    match edge {
        Edge::Left => Pointer { x: sub_saturating(android.width, 1), y: android.height / 2 },
        Edge::Right => Pointer { x: 0, y: android.height / 2 },
        Edge::Top => Pointer { x: android.width / 2, y: sub_saturating(android.height, 1) },
        Edge::Bottom => Pointer { x: android.width / 2, y: 0 },
    }
}

/// The host pointer position at which focus returns to the host.
pub fn host_return_pointer(edge: Edge, host: ScreenBounds) -> (p: Pointer)
    ensures
        (p.x as int, p.y as int) == spec_host_return_pointer(edge, host),
{
    match edge {
        Edge::Left => Pointer { x: 1, y: host.height / 2 },
        Edge::Right => Pointer { x: sub_saturating(host.width, 2), y: host.height / 2 },
        Edge::Top => Pointer { x: host.width / 2, y: 1 },
        Edge::Bottom => Pointer { x: host.width / 2, y: sub_saturating(host.height, 2) },
    }
}

/// Whether the Android pointer at `pointer` hands focus back to the host.
pub fn should_release(edge: Edge, pointer: Pointer, android: AndroidBounds) -> (b: bool)
    ensures
        b == spec_should_release(edge, pointer, android),
{
    match edge {
        Edge::Left => pointer.x >= android.width,
        Edge::Right => pointer.x < 0,
        Edge::Top => pointer.y >= android.height,
        Edge::Bottom => pointer.y < 0,
    }
}

/// Law: entering Android on a display of positive size puts the pointer on
/// the display, and the entry position never releases focus at once.
pub proof fn lemma_entry_pointer_on_display(edge: Edge, android: AndroidBounds)
    requires
        android.width > 0,
        android.height > 0,
    ensures
        0 <= spec_android_entry_pointer(edge, android).0 < android.width,
        0 <= spec_android_entry_pointer(edge, android).1 < android.height,
        !spec_should_release(
            edge,
            Pointer {
                x: spec_android_entry_pointer(edge, android).0 as i32,
                y: spec_android_entry_pointer(edge, android).1 as i32,
            },
            android,
        ),
{
}

/// The Android pointer lies past the side of the Android display that faces
/// the host: the left side when the device is to the right of the host, the
/// right side when it is to the left, the bottom when it is above, the top
/// when it is below.
pub open spec fn past_host_side(edge: Edge, pointer: Pointer, android: AndroidBounds) -> bool {
    ||| edge == Edge::Right && pointer.x < 0
    ||| edge == Edge::Left && pointer.x >= android.width
    ||| edge == Edge::Bottom && pointer.y < 0
    ||| edge == Edge::Top && pointer.y >= android.height
}

/// Law: focus returns to the host exactly when the Android pointer has left
/// the display through the side that faces the host; leaving through any
/// other side never releases.
pub proof fn lemma_release_only_through_host_side(edge: Edge, pointer: Pointer, android: AndroidBounds)
    ensures
        spec_should_release(edge, pointer, android) <==> past_host_side(edge, pointer, android),
        edge == Edge::Right && pointer.x >= 0 ==> !spec_should_release(edge, pointer, android),
        edge == Edge::Left && pointer.x < android.width ==> !spec_should_release(edge, pointer, android),
        edge == Edge::Bottom && pointer.y >= 0 ==> !spec_should_release(edge, pointer, android),
        edge == Edge::Top && pointer.y < android.height ==> !spec_should_release(edge, pointer, android),
{
}

/// Law: a pointer on the Android display never releases focus.
pub proof fn lemma_release_never_on_display(edge: Edge, pointer: Pointer, android: AndroidBounds)
    requires
        0 <= pointer.x < android.width,
        0 <= pointer.y < android.height,
    ensures
        !spec_should_release(edge, pointer, android),
{
}

/// Law: whether the pointer releases depends only on its coordinate across
/// the host-facing side, and on the display size only where that side is
/// the far one (width for a device to the left, height for one above); the
/// other coordinate and the other dimension never matter.
pub proof fn lemma_release_depends_on_host_axis(
    edge: Edge,
    p1: Pointer,
    p2: Pointer,
    a1: AndroidBounds,
    a2: AndroidBounds,
)
    requires
        edge == Edge::Left || edge == Edge::Right ==> p1.x == p2.x,
        edge == Edge::Top || edge == Edge::Bottom ==> p1.y == p2.y,
        edge == Edge::Left ==> a1.width == a2.width,
        edge == Edge::Top ==> a1.height == a2.height,
    ensures
        spec_should_release(edge, p1, a1) == spec_should_release(edge, p2, a2),
{
}

/// Law: a pointer moved further toward the host than a releasing pointer
/// also releases.
pub proof fn lemma_release_monotone_toward_host(
    edge: Edge,
    p: Pointer,
    q: Pointer,
    android: AndroidBounds,
)
    requires
        spec_should_release(edge, p, android),
        edge == Edge::Right ==> q.x <= p.x,
        edge == Edge::Left ==> q.x >= p.x,
        edge == Edge::Bottom ==> q.y <= p.y,
        edge == Edge::Top ==> q.y >= p.y,
    ensures
        spec_should_release(edge, q, android),
{
}

/// Law: on a host display at least two pixels wide and high, the pointer
/// handed back to the host lies on the display.
pub proof fn lemma_return_pointer_on_display(edge: Edge, host: ScreenBounds)
    requires
        host.width >= 2,
        host.height >= 2,
    ensures
        0 <= spec_host_return_pointer(edge, host).0 < host.width,
        0 <= spec_host_return_pointer(edge, host).1 < host.height,
{
}


/// Law: the first poll after a session has ended leaves the host focused,
/// wherever the pointer is.
pub proof fn lemma_first_poll_after_session_on_host(
    switch: EdgeSwitchView,
    bounds: ScreenBounds,
    pointer: Pointer,
)
    ensures
        next_focus(
            EdgeSwitchView { focus: Focus::Host, armed: false, ..switch },
            bounds,
            pointer,
        ) == Focus::Host,
{
}

/// Whether the audio-only scrcpy process runs while `focus` has focus: only
/// when audio is enabled, and then always, or only while Android has focus.
pub open spec fn spec_audio_wanted(enabled: bool, always_on: bool, focus: Focus) -> bool {
    enabled && (always_on || focus == Focus::Android)
}

/// Law: audio never runs when it is disabled; when it is enabled it always
/// runs while Android has focus; and the always-on setting only decides
/// whether it runs while the host has focus.
pub proof fn lemma_audio_policy(enabled: bool, always_on: bool, focus: Focus)
    ensures
        !spec_audio_wanted(false, always_on, focus),
        spec_audio_wanted(true, always_on, Focus::Android),
        spec_audio_wanted(enabled, always_on, Focus::Host) == (enabled && always_on),
        spec_audio_wanted(enabled, true, Focus::Android) == spec_audio_wanted(
            enabled,
            false,
            Focus::Android,
        ),
        spec_audio_wanted(enabled, always_on, Focus::Host) ==> spec_audio_wanted(
            enabled,
            always_on,
            Focus::Android,
        ),
{
}

/// Whether the audio-only scrcpy process runs while `focus` has focus.
pub fn audio_wanted(enabled: bool, always_on: bool, focus: Focus) -> (b: bool)
    ensures
        b == spec_audio_wanted(enabled, always_on, focus),
{
    enabled && (always_on || focus == Focus::Android)
}

/// The Android pointer of an active Android session.
#[derive(Clone, Copy, Debug, PartialEq, Eq, Structural)]
pub struct Session {
    pub android: AndroidBounds,
    pub pointer: Pointer,
}

/// What one motion of the host pointer does while Android has focus.
#[derive(Clone, Copy, Debug, PartialEq, Eq, Structural)]
pub enum AndroidStep {
    /// The pointer did not move: nothing to do, Android keeps focus.
    Idle,
    /// Warp the host pointer back to the anchor; the Android pointer left the
    /// display towards the host, so the host takes focus.
    Release,
    /// Warp the host pointer back to the anchor and forward the motion
    /// `(dx, dy)` to the Android mouse, which takes the Android pointer to
    /// `pointer`; Android keeps focus.
    Move { pointer: Pointer, dx: i32, dy: i32 },
}

/// What the loop does after a step, when the focus it computed differs from
/// the focus it had.
#[derive(Clone, Copy, Debug, PartialEq, Eq, Structural)]
pub enum Transition {
    /// The focus did not change.
    Stay,
    /// Start the Android session, then call [`RuntimeState::begin_session`].
    StartAndroid,
    /// Stop the Android session, then call [`RuntimeState::end_session`].
    StopAndroid,
}

impl AndroidStep {
    /// The focus that the step leaves.
    pub open spec fn spec_focus(self) -> Focus {
        match self {
            AndroidStep::Release => Focus::Host,
            _ => Focus::Android,
        }
    }

    /// The focus that the step leaves.
    pub fn focus(&self) -> (f: Focus)
        ensures
            f == self.spec_focus(),
    {
        match self {
            AndroidStep::Release => Focus::Host,
            _ => Focus::Android,
        }
    }
}

/// The abstract state of a [`RuntimeState`].
pub struct RuntimeView {
    pub edge: Edge,
    pub host_bounds: ScreenBounds,
    pub anchor: Pointer,
    pub switch: EdgeSwitchView,
    pub previous_focus: Focus,
    pub session: Option<Session>,
}

/// The decisions of the KVM loop: which side has focus, where the Android
/// pointer is, and what each poll of the host pointer leads to.
pub struct RuntimeState {
    edge: Edge,
    host_bounds: ScreenBounds,
    anchor: Pointer,
    switch: EdgeSwitch,
    previous_focus: Focus,
    session: Option<Session>,
}

impl View for RuntimeState {
    type V = RuntimeView;

    closed spec fn view(&self) -> RuntimeView {
        RuntimeView {
            edge: self.edge,
            host_bounds: self.host_bounds,
            anchor: self.anchor,
            switch: self.switch@,
            previous_focus: self.previous_focus,
            session: self.session,
        }
    }
}

/// The state is consistent: a session runs exactly while Android has focus,
/// and the anchor is the centre of the host display.
pub open spec fn runtime_wf(v: RuntimeView) -> bool {
    &&& (v.session is Some <==> v.previous_focus == Focus::Android)
    &&& v.anchor.x == half(v.host_bounds.width)
    &&& v.anchor.y == half(v.host_bounds.height)
    &&& v.switch.edge == v.edge
}

/// The Android pointer after a host motion of `(dx, dy)`.
pub open spec fn moved(p: Pointer, dx: i32, dy: i32) -> Pointer {
    Pointer { x: (p.x + dx) as i32, y: (p.y + dy) as i32 }
}

/// The step that a host motion of `(dx, dy)` makes during `session`.
pub open spec fn spec_android_step(edge: Edge, session: Session, dx: i32, dy: i32) -> AndroidStep {
    if dx == 0 && dy == 0 {
        AndroidStep::Idle
    } else if spec_should_release(edge, moved(session.pointer, dx, dy), session.android) {
        AndroidStep::Release
    } else {
        AndroidStep::Move { pointer: moved(session.pointer, dx, dy), dx, dy }
    }
}

/// The transition from `previous` to `focus`.
pub open spec fn spec_transition(previous: Focus, focus: Focus) -> Transition {
    if focus == previous {
        Transition::Stay
    } else {
        match focus {
            Focus::Android => Transition::StartAndroid,
            Focus::Host => Transition::StopAndroid,
        }
    }
}

impl RuntimeState {
    /// The state at the start of the loop: host focused, no session, the
    /// anchor at the centre of the host display.
    pub fn new(edge: Edge, activation_pixels: u32, release_pixels: u32, host_bounds: ScreenBounds) -> (s:
        Self)
        ensures
            runtime_wf(s@),
            s@.edge == edge,
            s@.host_bounds == host_bounds,
            s@.switch.activation_pixels == activation_pixels as i32,
            s@.switch.release_pixels == release_pixels as i32,
            s@.switch.focus == Focus::Host,
            s@.switch.armed,
            s@.previous_focus == Focus::Host,
            s@.session is None,
    {
        RuntimeState {
            edge,
            host_bounds,
            anchor: Pointer { x: host_bounds.width / 2, y: host_bounds.height / 2 },
            switch: EdgeSwitch::new(edge, activation_pixels, release_pixels),
            previous_focus: Focus::Host,
            session: None,
        }
    }

    /// The centre of the host display, where the host pointer is held while
    /// Android has focus.
    pub fn anchor(&self) -> (p: Pointer)
        ensures
            p == self@.anchor,
    {
        self.anchor
    }

    /// The host display size that the loop started with.
    pub fn host_bounds(&self) -> (b: ScreenBounds)
        ensures
            b == self@.host_bounds,
    {
        self.host_bounds
    }

    /// Whether an Android session runs.
    pub fn has_session(&self) -> (b: bool)
        ensures
            b == self@.session is Some,
    {
        self.session.is_some()
    }

    /// Whether [`RuntimeState::host_step`] can evaluate the edge switch
    /// without `i32` overflow.
    pub fn host_step_fits(&self) -> (b: bool)
        ensures
            b == update_fits(self@.switch, self@.host_bounds),
    {
        self.switch.update_fits(self.host_bounds)
    }

    /// Whether a motion of `(dx, dy)` keeps the Android pointer of the
    /// session within `i32`.
    pub fn motion_fits(&self, dx: i32, dy: i32) -> (b: bool)
        requires
            self@.session is Some,
        ensures
            b == fits_motion(self@.session->0.pointer, dx, dy),
    {
        let p = self.session.unwrap().pointer;
        let x = p.x as i64 + dx as i64;
        let y = p.y as i64 + dy as i64;
        i32::MIN as i64 <= x && x <= i32::MAX as i64 && i32::MIN as i64 <= y && y <= i32::MAX as i64
    }

    /// A poll of the host pointer while no session runs: the edge switch
    /// decides the focus.
    pub fn host_step(&mut self, pointer: Pointer) -> (focus: Focus)
        requires
            runtime_wf(old(self)@),
            old(self)@.session is None,
            update_fits(old(self)@.switch, old(self)@.host_bounds),
        ensures
            runtime_wf(final(self)@),
            focus == next_focus(old(self)@.switch, old(self)@.host_bounds, pointer),
            final(self)@ == (RuntimeView {
                switch: next_switch(old(self)@.switch, old(self)@.host_bounds, pointer),
                ..old(self)@
            }),
    {
        let bounds = self.host_bounds;
        self.switch.update(bounds, pointer)
    }

    /// A host motion of `(dx, dy)` while a session runs. The edge switch is
    /// not consulted; the Android pointer moves by the motion.
    pub fn android_step(&mut self, dx: i32, dy: i32) -> (step: AndroidStep)
        requires
            runtime_wf(old(self)@),
            old(self)@.session is Some,
            fits_motion(old(self)@.session->0.pointer, dx, dy),
        ensures
            runtime_wf(final(self)@),
            step == spec_android_step(old(self)@.edge, old(self)@.session->0, dx, dy),
            final(self)@ == (RuntimeView {
                session: if dx == 0 && dy == 0 {
                    old(self)@.session
                } else {
                    Some(
                        Session {
                            pointer: moved(old(self)@.session->0.pointer, dx, dy),
                            ..old(self)@.session->0
                        },
                    )
                },
                ..old(self)@
            }),
    {
        if dx == 0 && dy == 0 {
            return AndroidStep::Idle;
        }
        let session = self.session.unwrap();
        let pointer = Pointer { x: session.pointer.x + dx, y: session.pointer.y + dy };
        self.session = Some(Session { pointer, ..session });
        if should_release(self.edge, pointer, session.android) {
            AndroidStep::Release
        } else {
            AndroidStep::Move { pointer, dx, dy }
        }
    }

    /// What follows from the focus that a step computed.
    pub fn transition(&self, focus: Focus) -> (t: Transition)
        ensures
            t == spec_transition(self@.previous_focus, focus),
    {
        if focus == self.previous_focus {
            Transition::Stay
        } else {
            match focus {
                Focus::Android => Transition::StartAndroid,
                Focus::Host => Transition::StopAndroid,
            }
        }
    }

    /// Records that the Android session started on a display of size
    /// `android`; returns where the Android pointer starts.
    pub fn begin_session(&mut self, android: AndroidBounds) -> (p: Pointer)
        requires
            runtime_wf(old(self)@),
            old(self)@.previous_focus == Focus::Host,
        ensures
            runtime_wf(final(self)@),
            (p.x as int, p.y as int) == spec_android_entry_pointer(old(self)@.edge, android),
            final(self)@ == (RuntimeView {
                previous_focus: Focus::Android,
                session: Some(Session { android, pointer: p }),
                ..old(self)@
            }),
    {
        let pointer = android_entry_pointer(self.edge, android, self.host_bounds);
        self.session = Some(Session { android, pointer });
        self.previous_focus = Focus::Android;
        pointer
    }

    /// Records that the Android session stopped: the host has focus again and
    /// the edge switch is disarmed until the pointer leaves the activation
    /// zone. Returns where the host pointer is put back.
    pub fn end_session(&mut self) -> (p: Pointer)
        requires
            runtime_wf(old(self)@),
            old(self)@.previous_focus == Focus::Android,
        ensures
            runtime_wf(final(self)@),
            (p.x as int, p.y as int) == spec_host_return_pointer(
                old(self)@.edge,
                old(self)@.host_bounds,
            ),
            final(self)@ == (RuntimeView {
                switch: EdgeSwitchView { focus: Focus::Host, armed: false, ..old(self)@.switch },
                previous_focus: Focus::Host,
                session: None,
                ..old(self)@
            }),
    {
        self.session = None;
        self.previous_focus = Focus::Host;
        self.switch.release();
        host_return_pointer(self.edge, self.host_bounds)
    }

    /// Records that the scrcpy process serving the session exited on its
    /// own: the session is gone and the host has focus again.
    pub fn session_exited(&mut self)
        requires
            runtime_wf(old(self)@),
            old(self)@.session is Some,
        ensures
            runtime_wf(final(self)@),
            final(self)@ == (RuntimeView {
                switch: EdgeSwitchView { focus: Focus::Host, armed: false, ..old(self)@.switch },
                previous_focus: Focus::Host,
                session: None,
                ..old(self)@
            }),
    {
        self.session = None;
        self.previous_focus = Focus::Host;
        self.switch.release();
    }
}

/// A motion of `(dx, dy)` from `p` stays within `i32`.
pub open spec fn fits_motion(p: Pointer, dx: i32, dy: i32) -> bool {
    crate::edge::fits_i32(p.x + dx) && crate::edge::fits_i32(p.y + dy)
}

} // verus!
