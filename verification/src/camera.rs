//! The orbiting camera: a point on a sphere around its target.
//!
//! The camera is a state machine on three numbers. The yaw and the pitch
//! are angles in hundredths of a degree, the radius is a fixed-point
//! distance. Where the eye stands follows from them; the view matrix is
//! derived from the state outside this crate.

use vstd::prelude::*;
use crate::fixed::{clamp_spec, rem_floor};
use crate::vector::Vec3;

verus! {

/// A full turn, in hundredths of a degree.
pub const FULL_TURN: i32 = 36000;

/// How far the camera can look up or down, in hundredths of a degree: one
/// degree short of straight up, so that the view never flips over.
pub const PITCH_LIMIT: i32 = 8900;

/// The nearest the eye gets to the target: one unit.
pub const MIN_RADIUS: i32 = 65536;

/// The farthest the eye gets from the target: the largest fixed-point
/// number.
pub const MAX_RADIUS: i32 = i32::MAX;

/// The angle that one key press turns the camera by: a hundredth of a
/// turn.
pub const ORBIT_SPEED: i32 = 360;

/// The distance that one key press moves the camera by: half a unit.
pub const ZOOM_SPEED: i32 = 32768;

/// The state of the camera.
#[derive(Clone, Copy, Debug, PartialEq, Eq, Structural)]
pub struct Camera {
    /// The point that the camera looks at and orbits.
    pub center: Vec3,
    /// The direction that is up in the picture.
    pub up: Vec3,
    /// The angle around the vertical axis, from zero up to a full turn.
    pub yaw: i32,
    /// The angle above the horizon, between the two pitch limits.
    pub pitch: i32,
    /// The distance from the target to the eye.
    pub radius: i32,
}

/// The keys that move the camera, each `true` while it is held down.
#[derive(Clone, Copy, Debug, PartialEq, Eq, Structural)]
pub struct KeyState {
    pub left: bool,
    pub right: bool,
    pub up: bool,
    pub down: bool,
    pub w: bool,
    pub s: bool,
}

/// The camera `c` turned by `delta_yaw` and `delta_pitch`: the yaw wraps
/// around after a full turn, the pitch stops at its limits.
pub open spec fn orbit_spec(c: Camera, delta_yaw: int, delta_pitch: int) -> Camera {
    Camera {
        yaw: ((c.yaw + delta_yaw) % 36000) as i32,
        pitch: clamp_spec(c.pitch + delta_pitch, -8900, 8900) as i32,
        ..c
    }
}

/// The camera `c` moved away from its target by `delta`, or towards it for
/// a negative `delta`: the radius stops at its smallest and largest value.
pub open spec fn zoom_spec(c: Camera, delta: int) -> Camera {
    Camera { radius: clamp_spec(c.radius + delta, 65536, i32::MAX as int) as i32, ..c }
}

/// The camera after `n` equal turns.
pub open spec fn orbit_times(c: Camera, delta_yaw: int, delta_pitch: int, n: nat) -> Camera
    decreases n,
{
    if n == 0 {
        c
    } else {
        orbit_spec(orbit_times(c, delta_yaw, delta_pitch, (n - 1) as nat), delta_yaw, delta_pitch)
    }
}

/// The camera after `n` equal moves towards or away from its target.
pub open spec fn zoom_times(c: Camera, delta: int, n: nat) -> Camera
    decreases n,
{
    if n == 0 {
        c
    } else {
        zoom_spec(zoom_times(c, delta, (n - 1) as nat), delta)
    }
}

/// The camera after the keys that are held down have acted on it, in the
/// order left, right, up, down, `w`, `s`: the arrows turn it by
/// `ORBIT_SPEED`, `w` moves it in and `s` out by `ZOOM_SPEED`.
pub open spec fn handle_input_spec(c: Camera, keys: KeyState) -> Camera {
    let c1 = if keys.left {
        orbit_spec(c, 360, 0)
    } else {
        c
    };
    let c2 = if keys.right {
        orbit_spec(c1, -360, 0)
    } else {
        c1
    };
    let c3 = if keys.up {
        orbit_spec(c2, 0, 360)
    } else {
        c2
    };
    let c4 = if keys.down {
        orbit_spec(c3, 0, -360)
    } else {
        c3
    };
    let c5 = if keys.w {
        zoom_spec(c4, -32768)
    } else {
        c4
    };
    if keys.s {
        zoom_spec(c5, 32768)
    } else {
        c5
    }
}

fn clamp(v: i64, lo: i32, hi: i32) -> (r: i32)
    requires
        lo <= hi,
    ensures
        r == clamp_spec(v as int, lo as int, hi as int),
{
    if v < lo as i64 {
        lo
    } else if v > hi as i64 {
        hi
    } else {
        v as i32
    }
}

impl Camera {
    /// Whether the three numbers of the state are within their bounds.
    pub open spec fn valid(self) -> bool {
        &&& 0 <= self.yaw < FULL_TURN
        &&& -PITCH_LIMIT <= self.pitch <= PITCH_LIMIT
        &&& MIN_RADIUS <= self.radius <= MAX_RADIUS
    }

    /// A camera that looks at `center` from the given angles and distance,
    /// each brought within its bounds as `orbit` and `zoom` would.
    pub fn new(center: Vec3, up: Vec3, yaw: i32, pitch: i32, radius: i32) -> (c: Camera)
        ensures
            c.valid(),
            c == zoom_spec(
                orbit_spec(Camera { center, up, yaw, pitch, radius }, 0, 0),
                0,
            ),
    {
        let mut c: Camera = Camera { center, up, yaw, pitch, radius };
        c.orbit(0, 0);
        c.zoom(0);
        c
    }

    /// Turns the camera around its target by `delta_yaw` and lifts it by
    /// `delta_pitch`, both in hundredths of a degree.
    pub fn orbit(&mut self, delta_yaw: i32, delta_pitch: i32)
        ensures
            *final(self) == orbit_spec(*old(self), delta_yaw as int, delta_pitch as int),
            0 <= final(self).yaw < FULL_TURN,
            -PITCH_LIMIT <= final(self).pitch <= PITCH_LIMIT,
            old(self).valid() ==> final(self).valid(),
    {
        let yaw: i64 = rem_floor(self.yaw as i64 + delta_yaw as i64, 36000);
        let pitch: i32 = clamp(self.pitch as i64 + delta_pitch as i64, -8900, 8900);
        self.yaw = yaw as i32;
        self.pitch = pitch;
    }

    /// Moves the camera away from its target by `delta`, or towards it for
    /// a negative `delta`. The eye stays at least `MIN_RADIUS` away from
    /// the target and at most `MAX_RADIUS`.
    pub fn zoom(&mut self, delta: i32)
        ensures
            *final(self) == zoom_spec(*old(self), delta as int),
            MIN_RADIUS <= final(self).radius <= MAX_RADIUS,
            old(self).valid() ==> final(self).valid(),
    {
        self.radius = clamp(self.radius as i64 + delta as i64, 65536, i32::MAX);
    }
}

/// Lets the keys that are held down act on the camera.
pub fn handle_input(keys: &KeyState, camera: &mut Camera)
    ensures
        *final(camera) == handle_input_spec(*old(camera), *keys),
        old(camera).valid() ==> final(camera).valid(),
{
    if keys.left {
        camera.orbit(ORBIT_SPEED, 0);
    }
    if keys.right {
        camera.orbit(-ORBIT_SPEED, 0);
    }
    if keys.up {
        camera.orbit(0, ORBIT_SPEED);
    }
    if keys.down {
        camera.orbit(0, -ORBIT_SPEED);
    }
    if keys.w {
        camera.zoom(-ZOOM_SPEED);
    }
    if keys.s {
        camera.zoom(ZOOM_SPEED);
    }
}

/// After `n` turns by `delta_yaw` alone, the yaw is the first yaw plus `n`
/// times the turn, less the full turns in it; nothing else has changed.
pub proof fn lemma_orbit_times(c: Camera, delta_yaw: int, n: nat)
    requires
        c.valid(),
    ensures
        orbit_times(c, delta_yaw, 0, n) == (Camera {
            yaw: ((c.yaw + n * delta_yaw) % 36000) as i32,
            ..c
        }),
        orbit_times(c, delta_yaw, 0, n).valid(),
    decreases n,
{
    if n == 0 {
        assert(0 * delta_yaw == 0);
        vstd::arithmetic::div_mod::lemma_small_mod(c.yaw as nat, 36000);
    } else {
        let m = (n - 1) as nat;
        lemma_orbit_times(c, delta_yaw, m);
        let before = c.yaw + m * delta_yaw;
        assert(c.yaw + n * delta_yaw == before + delta_yaw) by (nonlinear_arith)
            requires
                before == c.yaw + m * delta_yaw,
                m == n - 1,
        ;
        vstd::arithmetic::div_mod::lemma_add_mod_noop(before, delta_yaw, 36000);
        vstd::arithmetic::div_mod::lemma_mod_twice(before, 36000);
        vstd::arithmetic::div_mod::lemma_add_mod_noop(before % 36000, delta_yaw, 36000);
        vstd::arithmetic::div_mod::lemma_mod_bound(before + delta_yaw, 36000);
    }
}

/// Orbiting is periodic: turns that add up to whole turns bring the yaw
/// back to where it was, and leave everything else alone. In particular,
/// where `delta_yaw` divides the full turn, `FULL_TURN / delta_yaw` turns
/// do.
pub proof fn lemma_orbit_periodic(c: Camera, delta_yaw: int, n: nat)
    requires
        c.valid(),
        (n * delta_yaw) % 36000 == 0,
    ensures
        orbit_times(c, delta_yaw, 0, n) == c,
{
    lemma_orbit_times(c, delta_yaw, n);
    vstd::arithmetic::div_mod::lemma_add_mod_noop(c.yaw as int, n * delta_yaw, 36000);
    vstd::arithmetic::div_mod::lemma_small_mod(c.yaw as nat, 36000);
}

/// Zooming is monotonic and bounded. Zooming in `n` times takes the radius
/// down by `n` steps, but never below `MIN_RADIUS`: the eye does not reach
/// the target. Zooming out takes it up by `n` steps, but never above
/// `MAX_RADIUS`.
pub proof fn lemma_zoom_times(c: Camera, delta: int, n: nat)
    requires
        c.valid(),
    ensures
        delta <= 0 ==> zoom_times(c, delta, n) == (Camera {
            radius: clamp_spec(c.radius + n * delta, 65536, c.radius as int) as i32,
            ..c
        }),
        delta >= 0 ==> zoom_times(c, delta, n) == (Camera {
            radius: clamp_spec(c.radius + n * delta, c.radius as int, i32::MAX as int) as i32,
            ..c
        }),
        zoom_times(c, delta, n).valid(),
        delta <= 0 ==> zoom_times(c, delta, n + 1).radius <= zoom_times(c, delta, n).radius,
        delta >= 0 ==> zoom_times(c, delta, n + 1).radius >= zoom_times(c, delta, n).radius,
    decreases n,
{
    if n == 0 {
        assert(0 * delta == 0);
    } else {
        let m = (n - 1) as nat;
        lemma_zoom_times(c, delta, m);
        assert(n * delta == m * delta + delta) by (nonlinear_arith)
            requires
                m == n - 1,
        ;
        if delta <= 0 {
            assert(m * delta <= 0) by (nonlinear_arith)
                requires
                    delta <= 0,
                    m >= 0,
            ;
        } else {
            assert(m * delta >= 0) by (nonlinear_arith)
                requires
                    delta >= 0,
                    m >= 0,
            ;
        }
    }
    assert(zoom_times(c, delta, n + 1) == zoom_spec(zoom_times(c, delta, n), delta));
}

} // verus!
