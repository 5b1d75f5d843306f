//! Wire-level gesture events, the actuation commands they produce, and the
//! bounds under which the interpreter works. Deltas, speeds and coordinates
//! are fixed-point integers in milli-pixels (one pixel is 1000 units).

use vstd::prelude::*;

verus! {

/// Largest accepted per-event delta magnitude, in milli-pixels (10^6 pixels).
/// Anything larger is clamped; such a delta is rejected as an outlier anyway.
pub const DELTA_LIMIT_MILLI: i64 = 1_000_000_000;

/// Largest accepted speed component magnitude, in milli-units.
pub const SPEED_LIMIT_MILLI: i64 = 100_000;

/// Largest accepted coordinate or viewport size magnitude, in milli-pixels.
pub const COORD_LIMIT_MILLI: i64 = 1_000_000_000_000;

/// A mouse button named by the remote client.
#[derive(Clone, Copy, PartialEq, Eq, Structural, Debug)]
pub enum MouseButton {
    Left,
    Right,
}

/// One decoded touch-move sample: positional deltas since the last sample,
/// instantaneous speed components, the finger count, and the viewport
/// geometry used for edge damping.
#[derive(Clone, Copy, PartialEq, Eq, Structural, Debug)]
pub struct MoveData {
    pub dx_milli: i64,
    pub dy_milli: i64,
    pub sx_milli: i64,
    pub sy_milli: i64,
    pub touches: i32,
    pub width_milli: i64,
    pub height_milli: i64,
    pub x_milli: i64,
    pub y_milli: i64,
}

/// One decoded unit of remote input.
#[derive(Clone, Copy, PartialEq, Eq, Structural, Debug)]
pub enum ClientEvent {
    MouseMove(MoveData),
    MouseClick(MouseButton),
    KeyPress(char),
}

/// One command for the actuator that injects OS-level input.
#[derive(Clone, Copy, PartialEq, Eq, Structural, Debug)]
pub enum Action {
    MoveRelative { dx: i32, dy: i32 },
    ScrollY { amount: i32 },
    Click { button: MouseButton },
    KeyTap { key: char },
}

/// `v` clamped into `[-lim, lim]`.
pub open spec fn clamp_spec(v: int, lim: int) -> int {
    if v > lim {
        lim
    } else if v < -lim {
        -lim
    } else {
        v
    }
}

/// Clamp `v` into `[-lim, lim]`.
pub fn clamp_i64(v: i64, lim: i64) -> (r: i64)
    requires
        0 <= lim,
    ensures
        r as int == clamp_spec(v as int, lim as int),
        -lim <= r <= lim,
{
    if v > lim {
        lim
    } else if v < -lim {
        -lim
    } else {
        v
    }
}

impl MoveData {
    /// All fields are within the fixed-point working range.
    pub open spec fn wf(self) -> bool {
        &&& -DELTA_LIMIT_MILLI <= self.dx_milli <= DELTA_LIMIT_MILLI
        &&& -DELTA_LIMIT_MILLI <= self.dy_milli <= DELTA_LIMIT_MILLI
        &&& -SPEED_LIMIT_MILLI <= self.sx_milli <= SPEED_LIMIT_MILLI
        &&& -SPEED_LIMIT_MILLI <= self.sy_milli <= SPEED_LIMIT_MILLI
        &&& -COORD_LIMIT_MILLI <= self.width_milli <= COORD_LIMIT_MILLI
        &&& -COORD_LIMIT_MILLI <= self.height_milli <= COORD_LIMIT_MILLI
        &&& -COORD_LIMIT_MILLI <= self.x_milli <= COORD_LIMIT_MILLI
        &&& -COORD_LIMIT_MILLI <= self.y_milli <= COORD_LIMIT_MILLI
    }

    /// Build a well-formed sample from raw milli-unit values, clamping each
    /// field into its working range.
    pub fn clamped(
        dx_milli: i64,
        dy_milli: i64,
        sx_milli: i64,
        sy_milli: i64,
        touches: i32,
        width_milli: i64,
        height_milli: i64,
        x_milli: i64,
        y_milli: i64,
    ) -> (d: MoveData)
        ensures
            d.wf(),
            d.dx_milli as int == clamp_spec(dx_milli as int, DELTA_LIMIT_MILLI as int),
            d.dy_milli as int == clamp_spec(dy_milli as int, DELTA_LIMIT_MILLI as int),
            d.sx_milli as int == clamp_spec(sx_milli as int, SPEED_LIMIT_MILLI as int),
            d.sy_milli as int == clamp_spec(sy_milli as int, SPEED_LIMIT_MILLI as int),
            d.touches == touches,
            d.width_milli as int == clamp_spec(width_milli as int, COORD_LIMIT_MILLI as int),
            d.height_milli as int == clamp_spec(height_milli as int, COORD_LIMIT_MILLI as int),
            d.x_milli as int == clamp_spec(x_milli as int, COORD_LIMIT_MILLI as int),
            d.y_milli as int == clamp_spec(y_milli as int, COORD_LIMIT_MILLI as int),
    {
        MoveData {
            dx_milli: clamp_i64(dx_milli, DELTA_LIMIT_MILLI),
            dy_milli: clamp_i64(dy_milli, DELTA_LIMIT_MILLI),
            sx_milli: clamp_i64(sx_milli, SPEED_LIMIT_MILLI),
            sy_milli: clamp_i64(sy_milli, SPEED_LIMIT_MILLI),
            touches,
            width_milli: clamp_i64(width_milli, COORD_LIMIT_MILLI),
            height_milli: clamp_i64(height_milli, COORD_LIMIT_MILLI),
            x_milli: clamp_i64(x_milli, COORD_LIMIT_MILLI),
            y_milli: clamp_i64(y_milli, COORD_LIMIT_MILLI),
        }
    }
}

impl ClientEvent {
    /// A move sample must be well-formed; clicks and key presses always are.
    pub open spec fn wf(self) -> bool {
        match self {
            ClientEvent::MouseMove(d) => d.wf(),
            ClientEvent::MouseClick(_) => true,
            ClientEvent::KeyPress(_) => true,
        }
    }
}

} // verus!
