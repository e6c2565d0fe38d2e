//! Host edge switching: when the host pointer crosses the configured edge,
//! focus moves to Android; when it comes back far enough, focus returns.
use vstd::prelude::*;

verus! {

/// Where the Android device sits relative to the host display.
#[derive(Clone, Copy, Debug, PartialEq, Eq, Structural)]
pub enum Edge {
    Left,
    Right,
    Top,
    Bottom,
}

/// Which side currently receives the user's input.
#[derive(Clone, Copy, Debug, PartialEq, Eq, Structural)]
pub enum Focus {
    Host,
    Android,
}

/// Size of the host display in pixels.
#[derive(Clone, Copy, Debug, PartialEq, Eq, Structural)]
pub struct ScreenBounds {
    pub width: i32,
    pub height: i32,
}

/// A pointer position in pixels.
#[derive(Clone, Copy, Debug, PartialEq, Eq, Structural)]
pub struct Pointer {
    pub x: i32,
    pub y: i32,
}


/// The abstract state of an [`EdgeSwitch`].
pub struct EdgeSwitchView {
    pub edge: Edge,
    pub activation_pixels: i32,
    pub release_pixels: i32,
    pub focus: Focus,
    /// Whether the pointer may activate Android focus. A switch starts armed
    /// and stays armed under updates; [`EdgeSwitch::release`], which ends an
    /// Android session, disarms it until the pointer has left the activation
    /// zone, so that resting at the edge does not bounce back.
    pub armed: bool,
}

/// Tracks whether the host pointer has been swiped through the configured
/// edge onto the Android device, and back again.
#[derive(Clone, Debug)]
pub struct EdgeSwitch {
    edge: Edge,
    activation_pixels: i32,
    release_pixels: i32,
    focus: Focus,
    armed: bool,
}

/// True when `value` fits in an `i32`.
pub open spec fn fits_i32(value: int) -> bool {
    i32::MIN <= value <= i32::MAX
}

/// True when the threshold that `pixels` sets against `edge` can be computed
/// in `i32` arithmetic without overflow.
pub open spec fn threshold_fits(edge: Edge, pixels: i32, bounds: ScreenBounds) -> bool {
    match edge {
        Edge::Left | Edge::Top => true,
        Edge::Right => fits_i32(bounds.width - pixels),
        Edge::Bottom => fits_i32(bounds.height - pixels),
    }
}

/// The pointer is within `pixels` of the configured host edge.
pub open spec fn spec_at_activation_edge(
    edge: Edge,
    pixels: i32,
    bounds: ScreenBounds,
    pointer: Pointer,
) -> bool {
    match edge {
        Edge::Left => pointer.x <= pixels,
        Edge::Right => pointer.x >= bounds.width - pixels,
        Edge::Top => pointer.y <= pixels,
        Edge::Bottom => pointer.y >= bounds.height - pixels,
    }
}

/// The pointer has come back at least `pixels` away from the configured host edge.
pub open spec fn spec_at_release_edge(
    edge: Edge,
    pixels: i32,
    bounds: ScreenBounds,
    pointer: Pointer,
) -> bool {
    match edge {
        Edge::Left => pointer.x >= pixels,
        Edge::Right => pointer.x <= bounds.width - pixels,
        Edge::Top => pointer.y >= pixels,
        Edge::Bottom => pointer.y <= bounds.height - pixels,
    }
}

/// The focus that follows `switch` after the pointer is seen at `pointer`:
/// an armed switch hands focus to Android at the activation edge, and focus
/// returns to the host at the release edge.
pub open spec fn next_focus(switch: EdgeSwitchView, bounds: ScreenBounds, pointer: Pointer) -> Focus {
    match switch.focus {
        Focus::Host => if switch.armed && spec_at_activation_edge(
            switch.edge,
            switch.activation_pixels,
            bounds,
            pointer,
        ) {
            Focus::Android
        } else {
            Focus::Host
        },
        Focus::Android => if spec_at_release_edge(
            switch.edge,
            switch.release_pixels,
            bounds,
            pointer,
        ) {
            Focus::Host
        } else {
            Focus::Android
        },
    }
}

/// Whether `switch` is armed after the pointer is seen at `pointer`: a
/// disarmed switch arms once the pointer is outside the activation zone; an
/// armed switch stays armed.
pub open spec fn next_armed(switch: EdgeSwitchView, bounds: ScreenBounds, pointer: Pointer) -> bool {
    switch.armed || (switch.focus == Focus::Host && !spec_at_activation_edge(
        switch.edge,
        switch.activation_pixels,
        bounds,
        pointer,
    ))
}

/// `switch` after the pointer is seen at `pointer`.
pub open spec fn next_switch(switch: EdgeSwitchView, bounds: ScreenBounds, pointer: Pointer) -> EdgeSwitchView {
    EdgeSwitchView {
        focus: next_focus(switch, bounds, pointer),
        armed: next_armed(switch, bounds, pointer),
        ..switch
    }
}

/// An update of `switch` at `bounds` can be evaluated without `i32` overflow.
pub open spec fn update_fits(switch: EdgeSwitchView, bounds: ScreenBounds) -> bool {
    match switch.focus {
        Focus::Host => threshold_fits(switch.edge, switch.activation_pixels, bounds),
        Focus::Android => threshold_fits(switch.edge, switch.release_pixels, bounds),
    }
}

/// Law: swiping an armed switch through the host edge gives Android the
/// focus, and coming back far enough gives it back to the host.
pub proof fn lemma_switch_round_trip(
    switch: EdgeSwitchView,
    bounds: ScreenBounds,
    out: Pointer,
    back: Pointer,
)
    requires
        switch.focus == Focus::Host,
        switch.armed,
        spec_at_activation_edge(switch.edge, switch.activation_pixels, bounds, out),
        spec_at_release_edge(switch.edge, switch.release_pixels, bounds, back),
    ensures
        next_focus(switch, bounds, out) == Focus::Android,
        next_focus(next_switch(switch, bounds, out), bounds, back) == Focus::Host,
{
}

/// Law: a switch that has only seen updates since it was made is armed, so
/// its focus follows the plain edge rule: Android at the activation edge from
/// the host, the host at the release edge from Android.
pub proof fn lemma_armed_switch_follows_edges(
    switch: EdgeSwitchView,
    bounds: ScreenBounds,
    pointer: Pointer,
)
    requires
        switch.armed,
    ensures
        next_switch(switch, bounds, pointer).armed,
        next_focus(switch, bounds, pointer) == (match switch.focus {
            Focus::Host => if spec_at_activation_edge(
                switch.edge,
                switch.activation_pixels,
                bounds,
                pointer,
            ) {
                Focus::Android
            } else {
                Focus::Host
            },
            Focus::Android => if spec_at_release_edge(
                switch.edge,
                switch.release_pixels,
                bounds,
                pointer,
            ) {
                Focus::Host
            } else {
                Focus::Android
            },
        }),
{
}

/// Law: once a session has returned focus to the host (the switch is
/// released), focus stays with the host while the pointer rests in the
/// activation zone, and moves again only after the pointer has left that zone
/// and come back.
pub proof fn lemma_return_stays_on_host(
    switch: EdgeSwitchView,
    bounds: ScreenBounds,
    resting: Pointer,
    away: Pointer,
    again: Pointer,
)
    requires
        switch.focus == Focus::Host,
        !switch.armed,
        spec_at_activation_edge(switch.edge, switch.activation_pixels, bounds, resting),
        !spec_at_activation_edge(switch.edge, switch.activation_pixels, bounds, away),
        spec_at_activation_edge(switch.edge, switch.activation_pixels, bounds, again),
    ensures
        next_switch(switch, bounds, resting) == switch,
        next_focus(next_switch(switch, bounds, away), bounds, again) == Focus::Android,
{
}

/// Law: on a left or right edge only the x coordinate and the width matter;
/// on a top or bottom edge only the y coordinate and the height.
pub proof fn lemma_switch_ignores_other_axis(
    switch: EdgeSwitchView,
    b1: ScreenBounds,
    b2: ScreenBounds,
    p1: Pointer,
    p2: Pointer,
)
    requires
        switch.edge == Edge::Left || switch.edge == Edge::Right ==> b1.width == b2.width && p1.x
            == p2.x,
        switch.edge == Edge::Top || switch.edge == Edge::Bottom ==> b1.height == b2.height && p1.y
            == p2.y,
    ensures
        next_switch(switch, b1, p1) == next_switch(switch, b2, p2),
{
}

impl View for EdgeSwitch {
    type V = EdgeSwitchView;

    closed spec fn view(&self) -> EdgeSwitchView {
        EdgeSwitchView {
            edge: self.edge,
            activation_pixels: self.activation_pixels,
            release_pixels: self.release_pixels,
            focus: self.focus,
            armed: self.armed,
        }
    }
}

impl EdgeSwitch {
    /// A switch for `edge` that starts armed, with the host focused. The
    /// pixel counts are reinterpreted as `i32`, as a cast does.
    pub fn new(edge: Edge, activation_pixels: u32, release_pixels: u32) -> (switch: Self)
        ensures
            switch@.edge == edge,
            switch@.activation_pixels == activation_pixels as i32,
            switch@.release_pixels == release_pixels as i32,
            switch@.focus == Focus::Host,
            switch@.armed,
    {
        EdgeSwitch {
            edge,
            activation_pixels: activation_pixels as i32,
            release_pixels: release_pixels as i32,
            focus: Focus::Host,
            armed: true,
        }
    }

    /// Hands focus back to the host and disarms the switch until the pointer
    /// has left the activation zone.
    pub fn release(&mut self)
        ensures
            final(self)@ == (EdgeSwitchView { focus: Focus::Host, armed: false, ..old(self)@ }),
    {
        self.focus = Focus::Host;
        self.armed = false;
    }

    /// Whether [`EdgeSwitch::update`] can evaluate its threshold at `bounds`
    /// without `i32` overflow.
    pub fn update_fits(&self, bounds: ScreenBounds) -> (b: bool)
        ensures
            b == update_fits(self@, bounds),
    {
        let pixels = match self.focus {
            Focus::Host => self.activation_pixels,
            Focus::Android => self.release_pixels,
        };
        let side = match self.edge {
            Edge::Left | Edge::Top => return true,
            Edge::Right => bounds.width,
            Edge::Bottom => bounds.height,
        };
        let t = side as i64 - pixels as i64;
        i32::MIN as i64 <= t && t <= i32::MAX as i64
    }

    /// Sees the pointer at `pointer` on a display of size `bounds`, moves the
    /// focus accordingly and returns the new focus.
    pub fn update(&mut self, bounds: ScreenBounds, pointer: Pointer) -> (focus: Focus)
        requires
            update_fits(old(self)@, bounds),
        ensures
            focus == next_focus(old(self)@, bounds, pointer),
            final(self)@ == next_switch(old(self)@, bounds, pointer),
    {
        match self.focus {
            Focus::Host => {
                let at_edge = self.at_activation_edge(bounds, pointer);
                if self.armed && at_edge {
                    self.focus = Focus::Android;
                } else if !at_edge {
                    self.armed = true;
                }
            },
            Focus::Android => {
                if self.at_release_edge(bounds, pointer) {
                    self.focus = Focus::Host;
                }
            },
        }
        self.focus
    }

    fn at_activation_edge(&self, bounds: ScreenBounds, pointer: Pointer) -> (b: bool)
        requires
            threshold_fits(self.edge, self.activation_pixels, bounds),
        ensures
            b == spec_at_activation_edge(self.edge, self.activation_pixels, bounds, pointer),
    {
        match self.edge {
            Edge::Left => pointer.x <= self.activation_pixels,
            Edge::Right => pointer.x >= bounds.width - self.activation_pixels,
            Edge::Top => pointer.y <= self.activation_pixels,
            Edge::Bottom => pointer.y >= bounds.height - self.activation_pixels,
        }
    }

    fn at_release_edge(&self, bounds: ScreenBounds, pointer: Pointer) -> (b: bool)
        requires
            threshold_fits(self.edge, self.release_pixels, bounds),
        ensures
            b == spec_at_release_edge(self.edge, self.release_pixels, bounds, pointer),
    {
        match self.edge {
            Edge::Left => pointer.x >= self.release_pixels,
            Edge::Right => pointer.x <= bounds.width - self.release_pixels,
            Edge::Top => pointer.y >= self.release_pixels,
            Edge::Bottom => pointer.y <= bounds.height - self.release_pixels,
        }
    }
}

} // verus!
