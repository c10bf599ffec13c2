//! The camera control: which way the keys held down turn the camera.

use vstd::prelude::*;

verus! {

/// The four rotation keys, each `true` while held down.
#[derive(Clone, Copy, Debug, PartialEq, Eq, Structural)]
pub struct CameraControl {
    pub cw: bool,
    pub ccw: bool,
    pub n: bool,
    pub s: bool,
}

/// The turn that the control asks of the camera: a direction along each axis
/// and whether the pair is to be scaled to unit length before it is
/// multiplied by the rotation speed.
#[derive(Clone, Copy, Debug, PartialEq, Eq, Structural)]
pub struct Steering {
    /// -1, 0 or 1: the direction in longitude.
    pub long_vel: i8,
    /// -1, 0 or 1: the direction in latitude.
    pub lat_vel: i8,
    /// Whether the direction is not zero, and so has a unit vector.
    pub normalize: bool,
}

/// The direction along one axis: toward the key held alone, none where both
/// or neither is held.
pub open spec fn axis_direction(negative: bool, positive: bool) -> int {
    if negative == positive {
        0
    } else if positive {
        1
    } else {
        -1
    }
}

impl CameraControl {
    /// The turn that this control asks for.
    pub open spec fn steering(self) -> Steering {
        Steering {
            long_vel: axis_direction(self.cw, self.ccw) as i8,
            lat_vel: axis_direction(self.s, self.n) as i8,
            normalize: self.cw != self.ccw || self.n != self.s,
        }
    }

    /// Sets angular velocity for camera based on control state
    pub fn update_camera(&self) -> (turn: Steering)
        ensures
            turn == self.steering(),
            -1 <= turn.long_vel <= 1,
            -1 <= turn.lat_vel <= 1,
            turn.normalize == (turn.long_vel != 0 || turn.lat_vel != 0),
    {
        let long_vel: i8 = match (self.cw, self.ccw) {
            (true, true) | (false, false) => 0,
            (true, false) => -1,
            (false, true) => 1,
        };
        let lat_vel: i8 = match (self.n, self.s) {
            (true, true) | (false, false) => 0,
            (false, true) => -1,
            (true, false) => 1,
        };
        // Of the squared lengths 0, 1 and 2 that such a pair can have, only 0
        // leaves the direction as it is.
        let normalize = long_vel != 0 || lat_vel != 0;
        Steering { long_vel, lat_vel, normalize }
    }
}

impl Default for CameraControl {
    fn default() -> (control: CameraControl)
        ensures
            control == (CameraControl { cw: false, ccw: false, n: false, s: false }),
    {
        CameraControl { cw: false, ccw: false, n: false, s: false }
    }
}

} // verus!
