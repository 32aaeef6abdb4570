//! The discrete inputs of the camera: its three axis presets and its moves.

use vstd::prelude::*;

verus! {

/// The camera presets that look at the origin along one axis.
#[derive(Clone, Copy, Debug, PartialEq, Eq, Structural)]
pub enum CameraType {
    X,
    Y,
    Z,
}

/// One step of camera movement along the camera's own axes.
#[derive(Clone, Copy, Debug, PartialEq, Eq, Structural)]
pub enum Movement {
    NoMovement,
    Left,
    Right,
    Up,
    Down,
    Forward,
    Backward,
}

} // verus!
