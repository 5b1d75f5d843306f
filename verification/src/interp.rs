//! The gesture interpreter: a single-consumer state machine that turns one
//! decoded `ClientEvent` at a time into at most one actuator command, while
//! maintaining the inertia carry and the scroll throttle timestamp.
//!
//! Two-finger samples take the scroll path; everything else takes the
//! movement path with its precision / neutral / acceleration regimes, edge
//! damping, inertia carry, outlier rejection and zero-delta decay.

use vstd::prelude::*;
use crate::event::{Action, ClientEvent, MouseButton, MoveData};
use crate::math::{
    abs_val, isqrt_spec, iroot5_spec, round_e12_spec, round_milli_spec, scale_milli_spec,
    isqrt_u64, iroot5_u128, round_e12, round_milli, scale_milli, lemma_scale_milli_bound,
    lemma_scale_milli_shrinks,
};
use vstd::arithmetic::div_mod::lemma_div_is_ordered;

verus! {

/// Milli-factor applied to deltas in the precision regime (0.9): a mild
/// sensitivity reduction for fine positioning.
pub const PRECISION_FACTOR_MILLI: i64 = 900;

/// Speed (milli-units) below which the precision regime applies and above
/// which the acceleration regime applies.
pub const SPEED_THRESHOLD_MILLI: i64 = 700;

/// Strength of the acceleration curve (1.05), in milli-units.
pub const ACCEL_MULTIPLIER_MILLI: i64 = 1050;

/// Milli-factor applied to the previous frame's carry as inertia (0.08).
pub const INERTIA_FACTOR_MILLI: i64 = 80;

/// Width of the edge zone, in milli-pixels (40 pixels).
pub const EDGE_ZONE_MILLI: i64 = 40_000;

/// Milli-factor applied to deltas and carry near a viewport edge (0.7).
pub const EDGE_DAMPING_MILLI: i64 = 700;

/// Rounded pixel deltas at or beyond this magnitude are discarded.
pub const OUTLIER_LIMIT_PX: i64 = 1000;

/// Base scroll sensitivity (2.5), in milli-units.
pub const SCROLL_BASE_MILLI: i64 = 2500;

/// Scroll acceleration per milli-pixel of vertical delta (0.15 per pixel).
pub const SCROLL_ACCEL_PER_MILLI: i64 = 150;

/// Cap on the scroll acceleration bonus, in micro-units (2.0).
pub const SCROLL_ACCEL_CAP_MICRO: i64 = 2_000_000;

/// Minimum milliseconds between two emitted scroll ticks.
pub const SCROLL_INTERVAL_MS: u64 = 25;

/// The interpreter's private kinematic state: the previous frame's
/// pre-rounding output delta (the inertia carry) and the time of the last
/// emitted scroll tick.
#[derive(Clone, Copy, PartialEq, Eq, Structural, Debug)]
pub struct Interpreter {
    pub prev_dx_milli: i64,
    pub prev_dy_milli: i64,
    pub last_scroll_time_ms: u64,
}

/// Speed magnitude in milli-units: the integer square root of
/// `sx^2 + sy^2` over milli-unit components.
pub open spec fn speed_milli_spec(sx: int, sy: int) -> int {
    isqrt_spec((sx * sx + sy * sy) as nat) as int
}

/// The acceleration regime's milli-factor:
/// `1 + 1.05 * excess^1.4`, where `excess` is the speed above the
/// threshold. `excess^1.4` is computed in fixed point as the integer fifth
/// root of `excess_milli^7 / 10^6`, which is `1000 * excess^(7/5)` up to
/// truncation.
pub open spec fn accel_factor_milli_spec(speed_milli: int) -> int {
    let e = speed_milli - SPEED_THRESHOLD_MILLI;
    let p = iroot5_spec(((e * e * e * e * e * e * e) / 1_000_000) as nat) as int;
    1000 + (ACCEL_MULTIPLIER_MILLI * p) / 1000
}

/// Whether the sample's position lies within the edge zone of any viewport
/// boundary.
pub open spec fn near_edge_spec(d: MoveData) -> bool {
    ||| d.x_milli < EDGE_ZONE_MILLI
    ||| d.x_milli > d.width_milli - EDGE_ZONE_MILLI
    ||| d.y_milli < EDGE_ZONE_MILLI
    ||| d.y_milli > d.height_milli - EDGE_ZONE_MILLI
}

/// A delta component after the speed regime: scaled up in the precision
/// regime, scaled by the acceleration curve above the threshold, and passed
/// through unscaled at the threshold itself.
pub open spec fn scaled_delta_spec(v: int, speed: int) -> int {
    if speed < SPEED_THRESHOLD_MILLI {
        scale_milli_spec(v, PRECISION_FACTOR_MILLI as int)
    } else if speed > SPEED_THRESHOLD_MILLI {
        scale_milli_spec(v, accel_factor_milli_spec(speed))
    } else {
        v
    }
}

/// The carry that survives the speed regime: the precision regime resets it.
pub open spec fn carry_base_spec(p: int, speed: int) -> int {
    if speed < SPEED_THRESHOLD_MILLI {
        0
    } else {
        p
    }
}

/// Edge damping.
pub open spec fn damped_spec(v: int, near: bool) -> int {
    if near {
        scale_milli_spec(v, EDGE_DAMPING_MILLI as int)
    } else {
        v
    }
}

/// One movement component before rounding: the regime-scaled, edge-damped
/// delta plus the inertia contribution of the (damped) carry.
pub open spec fn move_cur_spec(v: int, p: int, speed: int, near: bool) -> int {
    damped_spec(scaled_delta_spec(v, speed), near) + scale_milli_spec(
        damped_spec(carry_base_spec(p, speed), near),
        INERTIA_FACTOR_MILLI as int,
    )
}

/// The movement path: state after the sample and the action it emits.
/// Outliers are discarded and reset the carry; an all-zero rounded delta
/// halves the carry; anything else moves the pointer and saves the
/// pre-rounding delta as the next carry.
pub open spec fn move_result_spec(s: Interpreter, d: MoveData) -> (Interpreter, Option<Action>) {
    let speed = speed_milli_spec(d.sx_milli as int, d.sy_milli as int);
    let near = near_edge_spec(d);
    let cx = move_cur_spec(d.dx_milli as int, s.prev_dx_milli as int, speed, near);
    let cy = move_cur_spec(d.dy_milli as int, s.prev_dy_milli as int, speed, near);
    let rx = round_milli_spec(cx);
    let ry = round_milli_spec(cy);
    if abs_val(rx) >= OUTLIER_LIMIT_PX as int || abs_val(ry) >= OUTLIER_LIMIT_PX as int {
        (
            Interpreter {
                prev_dx_milli: 0,
                prev_dy_milli: 0,
                last_scroll_time_ms: s.last_scroll_time_ms,
            },
            None,
        )
    } else if rx == 0 && ry == 0 {
        (
            Interpreter {
                prev_dx_milli: scale_milli_spec(cx, 500) as i64,
                prev_dy_milli: scale_milli_spec(cy, 500) as i64,
                last_scroll_time_ms: s.last_scroll_time_ms,
            },
            None,
        )
    } else {
        (
            Interpreter {
                prev_dx_milli: cx as i64,
                prev_dy_milli: cy as i64,
                last_scroll_time_ms: s.last_scroll_time_ms,
            },
            Some(Action::MoveRelative { dx: rx as i32, dy: ry as i32 }),
        )
    }
}

/// The scroll acceleration bonus in micro-units: `|dy| * 0.15`, capped at 2.
pub open spec fn scroll_accel_micro_spec(dy: int) -> int {
    let a = abs_val(dy) * SCROLL_ACCEL_PER_MILLI;
    if a > SCROLL_ACCEL_CAP_MICRO as int {
        SCROLL_ACCEL_CAP_MICRO as int
    } else {
        a
    }
}

/// The scroll tick count for a vertical delta:
/// `round(dy * 2.5 * (1 + accel))`, computed exactly over integers scaled
/// by 10^12 before the single rounding.
pub open spec fn scroll_value_spec(dy: int) -> int {
    round_e12_spec(dy * (SCROLL_BASE_MILLI as int) * (1_000_000 + scroll_accel_micro_spec(dy)))
}

/// The scroll path: always cancels the movement carry; emits an inverted
/// scroll tick and stamps the throttle clock only when the tick count is
/// nonzero and the throttle window has elapsed.
pub open spec fn scroll_result_spec(s: Interpreter, dy: int, now_ms: u64) -> (Interpreter, Option<
    Action,
>) {
    let v = scroll_value_spec(dy);
    if v != 0 && now_ms - s.last_scroll_time_ms >= SCROLL_INTERVAL_MS {
        (
            Interpreter { prev_dx_milli: 0, prev_dy_milli: 0, last_scroll_time_ms: now_ms },
            Some(Action::ScrollY { amount: (-v) as i32 }),
        )
    } else {
        (
            Interpreter {
                prev_dx_milli: 0,
                prev_dy_milli: 0,
                last_scroll_time_ms: s.last_scroll_time_ms,
            },
            None,
        )
    }
}

/// What one event does to the interpreter: the state after the event and
/// the at most one actuator command it emits.
pub open spec fn step_spec(s: Interpreter, e: ClientEvent, now_ms: u64) -> (Interpreter, Option<
    Action,
>) {
    match e {
        ClientEvent::MouseMove(d) => if d.touches == 2 {
            scroll_result_spec(s, d.dy_milli as int, now_ms)
        } else {
            move_result_spec(s, d)
        },
        ClientEvent::MouseClick(b) => (
            Interpreter {
                prev_dx_milli: 0,
                prev_dy_milli: 0,
                last_scroll_time_ms: s.last_scroll_time_ms,
            },
            Some(Action::Click { button: b }),
        ),
        ClientEvent::KeyPress(k) => (s, Some(Action::KeyTap { key: k })),
    }
}

/// Speed magnitude in milli-units.
fn speed_milli(sx: i64, sy: i64) -> (s: i64)
    requires
        -100_000 <= sx <= 100_000,
        -100_000 <= sy <= 100_000,
    ensures
        s as int == speed_milli_spec(sx as int, sy as int),
        0 <= s <= 141_421,
{
    proof {
        assert(0 <= (sx as int) * (sx as int) && (sx as int) * (sx as int) <= 10_000_000_000)
            by (nonlinear_arith)
            requires
                -100_000 <= sx as int && sx as int <= 100_000,
        ;
        assert(0 <= (sy as int) * (sy as int) && (sy as int) * (sy as int) <= 10_000_000_000)
            by (nonlinear_arith)
            requires
                -100_000 <= sy as int && sy as int <= 100_000,
        ;
    }
    let qx: i64 = sx * sx;
    let qy: i64 = sy * sy;
    let n: u64 = (qx + qy) as u64;
    let r: u64 = isqrt_u64(n);
    r as i64
}

/// The acceleration regime's milli-factor for a speed above the threshold.
fn accel_factor_milli(speed_milli: i64) -> (f: i64)
    requires
        700 < speed_milli <= 141_421,
    ensures
        f as int == accel_factor_milli_spec(speed_milli as int),
        1000 <= f <= 1_261_000,
{
    let e: u64 = (speed_milli - 700) as u64;
    let e1: u128 = e as u128;
    proof {
        assert(0 <= (e1 as int) * (e1 as int) && (e1 as int) * (e1 as int) <= 20_000_000_000)
            by (nonlinear_arith)
            requires
                0 <= e1 as int && e1 as int <= 140_721,
        ;
    }
    let e2: u128 = e1 * e1;
    proof {
        assert(0 <= (e2 as int) * (e2 as int) && (e2 as int) * (e2 as int)
            <= 400_000_000_000_000_000_000) by (nonlinear_arith)
            requires
                0 <= e2 as int && e2 as int <= 20_000_000_000,
        ;
    }
    let e4: u128 = e2 * e2;
    proof {
        assert(0 <= (e4 as int) * (e2 as int) && (e4 as int) * (e2 as int)
            <= 8_000_000_000_000_000_000_000_000_000_000) by (nonlinear_arith)
            requires
                0 <= e4 as int && e4 as int <= 400_000_000_000_000_000_000,
                0 <= e2 as int && e2 as int <= 20_000_000_000,
        ;
    }
    let e6: u128 = e4 * e2;
    proof {
        assert(0 <= (e6 as int) * (e1 as int) && (e6 as int) * (e1 as int)
            <= 2_000_000_000_000_000_000_000_000_000_000_000_000) by (nonlinear_arith)
            requires
                0 <= e6 as int && e6 as int <= 8_000_000_000_000_000_000_000_000_000_000,
                0 <= e1 as int && e1 as int <= 140_721,
        ;
    }
    let e7: u128 = e6 * e1;
    proof {
        lemma_div_is_ordered(
            e7 as int,
            2_000_000_000_000_000_000_000_000_000_000_000_000int,
            1_000_000,
        );
        lemma_div_is_ordered(0, e7 as int, 1_000_000);
    }
    let v: u128 = e7 / 1_000_000;
    let p: u128 = iroot5_u128(v);
    proof {
        let ei = e1 as int;
        assert(e7 as int == ei * ei * ei * ei * ei * ei * ei) by (nonlinear_arith)
            requires
                e2 as int == (e1 as int) * (e1 as int),
                e4 as int == (e2 as int) * (e2 as int),
                e6 as int == (e4 as int) * (e2 as int),
                e7 as int == (e6 as int) * (e1 as int),
                ei == e1 as int,
        ;
    }
    let pf: u64 = (1050 * (p as u64)) / 1000;
    1000 + (pf as i64)
}

impl Interpreter {
    /// The carry never exceeds the largest pre-rounding delta that survives
    /// outlier rejection.
    pub open spec fn wf(self) -> bool {
        &&& -999_499 <= self.prev_dx_milli <= 999_499
        &&& -999_499 <= self.prev_dy_milli <= 999_499
    }

    /// A fresh interpreter: no carry, no scroll tick emitted yet.
    pub fn new() -> (s: Self)
        ensures
            s.wf(),
            s.prev_dx_milli == 0,
            s.prev_dy_milli == 0,
            s.last_scroll_time_ms == 0,
    {
        Interpreter { prev_dx_milli: 0, prev_dy_milli: 0, last_scroll_time_ms: 0 }
    }

    /// The scroll path for a two-finger sample.
    fn scroll_step(&mut self, d: &MoveData, now_ms: u64) -> (action: Option<Action>)
        requires
            d.wf(),
            now_ms >= old(self).last_scroll_time_ms,
        ensures
            *final(self) == scroll_result_spec(*old(self), d.dy_milli as int, now_ms).0,
            action == scroll_result_spec(*old(self), d.dy_milli as int, now_ms).1,
    {
        let dy = d.dy_milli;
        let ady: i64 = if dy >= 0 {
            dy
        } else {
            -dy
        };
        let a_raw: i64 = ady * SCROLL_ACCEL_PER_MILLI;
        let a_micro: i64 = if a_raw > SCROLL_ACCEL_CAP_MICRO {
            SCROLL_ACCEL_CAP_MICRO
        } else {
            a_raw
        };
        proof {
            assert(a_micro as int == scroll_accel_micro_spec(dy as int));
            assert(((dy as int) * 2500) * (1_000_000 + a_micro as int) <= 10_000_000_000_000_000_000
                && ((dy as int) * 2500) * (1_000_000 + a_micro as int)
                >= -10_000_000_000_000_000_000) by (nonlinear_arith)
                requires
                    -1_000_000_000 <= dy as int && dy as int <= 1_000_000_000,
                    0 <= a_micro as int && a_micro as int <= 2_000_000,
            ;
        }
        let p1: i128 = (dy as i128) * (SCROLL_BASE_MILLI as i128);
        let prod: i128 = p1 * ((1_000_000 + a_micro) as i128);
        let val: i64 = round_e12(prod);
        proof {
            assert(val as int == scroll_value_spec(dy as int));
        }
        self.prev_dx_milli = 0;
        self.prev_dy_milli = 0;
        if val != 0 && now_ms - self.last_scroll_time_ms >= SCROLL_INTERVAL_MS {
            self.last_scroll_time_ms = now_ms;
            Some(Action::ScrollY { amount: (-val) as i32 })
        } else {
            None
        }
    }

    /// The movement path for a one-finger (or fingerless) sample.
    fn move_step(&mut self, d: &MoveData) -> (action: Option<Action>)
        requires
            old(self).wf(),
            d.wf(),
        ensures
            *final(self) == move_result_spec(*old(self), *d).0,
            action == move_result_spec(*old(self), *d).1,
            final(self).wf(),
    {
        let speed = speed_milli(d.sx_milli, d.sy_milli);
        let near = d.x_milli < EDGE_ZONE_MILLI || d.x_milli > d.width_milli - EDGE_ZONE_MILLI
            || d.y_milli < EDGE_ZONE_MILLI || d.y_milli > d.height_milli - EDGE_ZONE_MILLI;
        proof {
            assert(near == near_edge_spec(*d));
        }
        let ax: i64;
        let ay: i64;
        let px: i64;
        let py: i64;
        if speed < SPEED_THRESHOLD_MILLI {
            ax = scale_milli(d.dx_milli, PRECISION_FACTOR_MILLI);
            ay = scale_milli(d.dy_milli, PRECISION_FACTOR_MILLI);
            px = 0;
            py = 0;
            proof {
                lemma_scale_milli_bound(d.dx_milli as int, 900, 1_000_000_000);
                lemma_scale_milli_bound(d.dy_milli as int, 900, 1_000_000_000);
            }
        } else if speed > SPEED_THRESHOLD_MILLI {
            let f = accel_factor_milli(speed);
            ax = scale_milli(d.dx_milli, f);
            ay = scale_milli(d.dy_milli, f);
            px = self.prev_dx_milli;
            py = self.prev_dy_milli;
            proof {
                lemma_scale_milli_bound(d.dx_milli as int, f as int, 1_000_000_000);
                lemma_scale_milli_bound(d.dy_milli as int, f as int, 1_000_000_000);
                lemma_div_is_ordered(
                    1_000_000_000 * (f as int),
                    1_000_000_000int * 1_261_000,
                    1000,
                );
            }
        } else {
            ax = d.dx_milli;
            ay = d.dy_milli;
            px = self.prev_dx_milli;
            py = self.prev_dy_milli;
        }
        assert(-1_261_000_000_000 <= ax as int && ax as int <= 1_261_000_000_000);
        assert(-1_261_000_000_000 <= ay as int && ay as int <= 1_261_000_000_000);
        assert(ax as int == scaled_delta_spec(d.dx_milli as int, speed as int));
        assert(ay as int == scaled_delta_spec(d.dy_milli as int, speed as int));
        assert(px as int == carry_base_spec(old(self).prev_dx_milli as int, speed as int));
        assert(py as int == carry_base_spec(old(self).prev_dy_milli as int, speed as int));
        let axd: i64;
        let ayd: i64;
        let pxd: i64;
        let pyd: i64;
        if near {
            axd = scale_milli(ax, EDGE_DAMPING_MILLI);
            ayd = scale_milli(ay, EDGE_DAMPING_MILLI);
            pxd = scale_milli(px, EDGE_DAMPING_MILLI);
            pyd = scale_milli(py, EDGE_DAMPING_MILLI);
            proof {
                lemma_scale_milli_shrinks(ax as int, 700);
                lemma_scale_milli_shrinks(ay as int, 700);
                lemma_scale_milli_shrinks(px as int, 700);
                lemma_scale_milli_shrinks(py as int, 700);
            }
        } else {
            axd = ax;
            ayd = ay;
            pxd = px;
            pyd = py;
        }
        assert(-1_261_000_000_000 <= axd as int && axd as int <= 1_261_000_000_000);
        assert(-999_499 <= pxd as int && pxd as int <= 999_499);
        assert(-999_499 <= pyd as int && pyd as int <= 999_499);
        let ix = scale_milli(pxd, INERTIA_FACTOR_MILLI);
        let iy = scale_milli(pyd, INERTIA_FACTOR_MILLI);
        proof {
            lemma_scale_milli_bound(pxd as int, 80, 999_499);
            lemma_scale_milli_bound(pyd as int, 80, 999_499);
        }
        let cx: i64 = axd + ix;
        let cy: i64 = ayd + iy;
        assert(cx as int == move_cur_spec(
            d.dx_milli as int,
            old(self).prev_dx_milli as int,
            speed as int,
            near,
        ));
        assert(cy as int == move_cur_spec(
            d.dy_milli as int,
            old(self).prev_dy_milli as int,
            speed as int,
            near,
        ));
        let rx = round_milli(cx);
        let ry = round_milli(cy);
        let arx: i64 = if rx >= 0 {
            rx
        } else {
            -rx
        };
        let ary: i64 = if ry >= 0 {
            ry
        } else {
            -ry
        };
        if arx >= OUTLIER_LIMIT_PX || ary >= OUTLIER_LIMIT_PX {
            self.prev_dx_milli = 0;
            self.prev_dy_milli = 0;
            None
        } else if rx == 0 && ry == 0 {
            proof {
                if abs_val(cx as int) >= 500 {
                    lemma_div_is_ordered(1000, abs_val(cx as int) + 500, 1000);
                    assert(false);
                }
                if abs_val(cy as int) >= 500 {
                    lemma_div_is_ordered(1000, abs_val(cy as int) + 500, 1000);
                    assert(false);
                }
                lemma_scale_milli_shrinks(cx as int, 500);
                lemma_scale_milli_shrinks(cy as int, 500);
            }
            self.prev_dx_milli = scale_milli(cx, 500);
            self.prev_dy_milli = scale_milli(cy, 500);
            None
        } else {
            proof {
                if abs_val(cx as int) >= 999_500 {
                    lemma_div_is_ordered(1_000_000, abs_val(cx as int) + 500, 1000);
                    assert(false);
                }
                if abs_val(cy as int) >= 999_500 {
                    lemma_div_is_ordered(1_000_000, abs_val(cy as int) + 500, 1000);
                    assert(false);
                }
            }
            self.prev_dx_milli = cx;
            self.prev_dy_milli = cy;
            Some(Action::MoveRelative { dx: rx as i32, dy: ry as i32 })
        }
    }

    /// Interpret one event: update the kinematic state and return the at
    /// most one actuator command it produces. `now_ms` is a reading of the
    /// monotonic millisecond clock, so it never lies before the last
    /// emitted scroll tick.
    pub fn step(&mut self, event: &ClientEvent, now_ms: u64) -> (action: Option<Action>)
        requires
            old(self).wf(),
            event.wf(),
            now_ms >= old(self).last_scroll_time_ms,
        ensures
            final(self).wf(),
            *final(self) == step_spec(*old(self), *event, now_ms).0,
            action == step_spec(*old(self), *event, now_ms).1,
            final(self).last_scroll_time_ms == old(self).last_scroll_time_ms
                || final(self).last_scroll_time_ms == now_ms,
    {
        match event {
            ClientEvent::MouseMove(d) => {
                if d.touches == 2 {
                    self.scroll_step(d, now_ms)
                } else {
                    self.move_step(d)
                }
            },
            ClientEvent::MouseClick(b) => {
                self.prev_dx_milli = 0;
                self.prev_dy_milli = 0;
                Some(Action::Click { button: *b })
            },
            ClientEvent::KeyPress(k) => Some(Action::KeyTap { key: *k }),
        }
    }
}

} // verus!
