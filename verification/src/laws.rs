//! Laws of the gesture interpreter, each proved against `step_spec`, the
//! specification that `Interpreter::step` is verified to implement.

use vstd::prelude::*;
use crate::event::{Action, ClientEvent, MouseButton, MoveData};
use crate::interp::{
    accel_factor_milli_spec, carry_base_spec, damped_spec, move_cur_spec, near_edge_spec,
    speed_milli_spec, step_spec, Interpreter, EDGE_DAMPING_MILLI, INERTIA_FACTOR_MILLI,
    OUTLIER_LIMIT_PX, PRECISION_FACTOR_MILLI, SCROLL_INTERVAL_MS, SPEED_THRESHOLD_MILLI,
};
use crate::math::{
    abs_val, round_milli_spec, scale_milli_spec, lemma_scale_milli_shrinks,
};
use vstd::arithmetic::div_mod::lemma_div_is_ordered;

verus! {

/// Scroll throttling: once a two-finger sample emits a scroll tick at time
/// `t1`, any two-finger sample arriving less than the throttle interval
/// later emits nothing, whatever its delta.
pub proof fn lemma_scroll_throttled(
    s: Interpreter,
    d1: MoveData,
    d2: MoveData,
    t1: u64,
    t2: u64,
)
    requires
        d1.touches == 2,
        d2.touches == 2,
        step_spec(s, ClientEvent::MouseMove(d1), t1).1 is Some,
        t1 <= t2,
        t2 - t1 < SCROLL_INTERVAL_MS,
    ensures
        step_spec(step_spec(s, ClientEvent::MouseMove(d1), t1).0, ClientEvent::MouseMove(d2), t2).1
            is None,
{
}

/// Only an emitted scroll tick re-stamps the throttle clock: every other
/// event leaves it unchanged. Together with `lemma_scroll_throttled` this
/// bounds scroll actuations to one per throttle window, whatever other
/// events arrive in between.
pub proof fn lemma_only_scroll_stamps_clock(s: Interpreter, e: ClientEvent, now_ms: u64)
    ensures
        step_spec(s, e, now_ms).0.last_scroll_time_ms == s.last_scroll_time_ms || (step_spec(
            s,
            e,
            now_ms,
        ).1 matches Some(Action::ScrollY { .. }) && step_spec(s, e, now_ms).0.last_scroll_time_ms
            == now_ms),
{
}

/// The interpreter state after running a whole sequence of timestamped
/// events, one `step_spec` at a time.
pub open spec fn run_spec(s: Interpreter, evs: Seq<(ClientEvent, u64)>) -> Interpreter
    decreases evs.len(),
{
    if evs.len() == 0 {
        s
    } else {
        run_spec(step_spec(s, evs[0].0, evs[0].1).0, evs.drop_first())
    }
}

/// A run whose events all lie inside the current throttle window never
/// re-stamps the throttle clock.
proof fn lemma_run_keeps_stamp(s: Interpreter, evs: Seq<(ClientEvent, u64)>)
    requires
        forall|j: int|
            0 <= j < evs.len() ==> (#[trigger] evs[j]).1 < s.last_scroll_time_ms
                + SCROLL_INTERVAL_MS,
    ensures
        run_spec(s, evs).last_scroll_time_ms == s.last_scroll_time_ms,
    decreases evs.len(),
{
    if evs.len() > 0 {
        assert(evs[0].1 < s.last_scroll_time_ms + SCROLL_INTERVAL_MS);
        let s1 = step_spec(s, evs[0].0, evs[0].1).0;
        assert(s1.last_scroll_time_ms == s.last_scroll_time_ms);
        assert(forall|j: int|
            0 <= j < evs.drop_first().len() ==> (#[trigger] evs.drop_first()[j]).1
                < s1.last_scroll_time_ms + SCROLL_INTERVAL_MS) by {
            assert(forall|j: int|
                0 <= j < evs.drop_first().len() ==> (#[trigger] evs.drop_first()[j]) == evs[j
                    + 1]);
        }
        lemma_run_keeps_stamp(s1, evs.drop_first());
    }
}

/// Scroll throttling over a whole run: as long as every event arrives
/// within the throttle interval of the last emitted scroll tick, no step
/// of the run emits a scroll tick, whatever mixture of moves, scrolls,
/// clicks and key presses the run holds.
pub proof fn lemma_at_most_one_scroll_per_window(
    s: Interpreter,
    evs: Seq<(ClientEvent, u64)>,
    i: int,
)
    requires
        forall|j: int|
            0 <= j < evs.len() ==> (#[trigger] evs[j]).1 < s.last_scroll_time_ms
                + SCROLL_INTERVAL_MS,
        0 <= i < evs.len(),
    ensures
        !(step_spec(run_spec(s, evs.take(i)), evs[i].0, evs[i].1).1 matches Some(
            Action::ScrollY { .. },
        )),
{
    assert(forall|j: int|
        0 <= j < evs.take(i).len() ==> (#[trigger] evs.take(i)[j]) == evs[j]);
    lemma_run_keeps_stamp(s, evs.take(i));
}

/// Mutual exclusivity: a two-finger sample never moves the pointer,
/// whatever its deltas.
pub proof fn lemma_scroll_never_moves(s: Interpreter, d: MoveData, now_ms: u64)
    requires
        d.touches == 2,
    ensures
        !(step_spec(s, ClientEvent::MouseMove(d), now_ms).1 matches Some(
            Action::MoveRelative { .. },
        )),
{
}

/// Outlier rejection: a movement sample whose rounded delta reaches the
/// outlier limit on either axis emits nothing and resets the carry to zero.
pub proof fn lemma_outlier_rejected(s: Interpreter, d: MoveData, now_ms: u64)
    requires
        d.touches != 2,
        abs_val(
            round_milli_spec(
                move_cur_spec(
                    d.dx_milli as int,
                    s.prev_dx_milli as int,
                    speed_milli_spec(d.sx_milli as int, d.sy_milli as int),
                    near_edge_spec(d),
                ),
            ),
        ) >= OUTLIER_LIMIT_PX as int || abs_val(
            round_milli_spec(
                move_cur_spec(
                    d.dy_milli as int,
                    s.prev_dy_milli as int,
                    speed_milli_spec(d.sx_milli as int, d.sy_milli as int),
                    near_edge_spec(d),
                ),
            ),
        ) >= OUTLIER_LIMIT_PX as int,
    ensures
        step_spec(s, ClientEvent::MouseMove(d), now_ms).1 is None,
        step_spec(s, ClientEvent::MouseMove(d), now_ms).0.prev_dx_milli == 0,
        step_spec(s, ClientEvent::MouseMove(d), now_ms).0.prev_dy_milli == 0,
{
}

/// One axis of the inertia decay argument: with a zero input delta, the
/// pre-rounding output is just the carry's inertia contribution, which
/// never exceeds the carry and strictly shrinks whenever the carry is
/// nonzero.
proof fn lemma_decay_component(p: int, speed: int, near: bool)
    requires
        -999_499 <= p <= 999_499,
    ensures
        abs_val(move_cur_spec(0, p, speed, near)) <= abs_val(p),
        p != 0 ==> abs_val(move_cur_spec(0, p, speed, near)) < abs_val(p),
        p == 0 ==> move_cur_spec(0, p, speed, near) == 0,
{
    assert(scale_milli_spec(0, PRECISION_FACTOR_MILLI as int) == 0);
    assert(scale_milli_spec(0, accel_factor_milli_spec(speed)) == 0);
    assert(scale_milli_spec(0, EDGE_DAMPING_MILLI as int) == 0);
    assert(scale_milli_spec(0, INERTIA_FACTOR_MILLI as int) == 0);
    let pb = carry_base_spec(p, speed);
    let pd = damped_spec(pb, near);
    lemma_scale_milli_shrinks(pb, 700);
    lemma_scale_milli_shrinks(pd, 80);
    assert(move_cur_spec(0, p, speed, near) == scale_milli_spec(pd, 80));
}

/// Inertia decay: a movement sample with zero deltas never grows the carry,
/// strictly shrinks a nonzero carry toward zero, and, whenever the output
/// rounds to zero on both axes, moves nothing.
pub proof fn lemma_inertia_decay(s: Interpreter, d: MoveData, now_ms: u64)
    requires
        s.wf(),
        d.wf(),
        d.touches != 2,
        d.dx_milli == 0,
        d.dy_milli == 0,
    ensures
        abs_val(step_spec(s, ClientEvent::MouseMove(d), now_ms).0.prev_dx_milli as int) <= abs_val(
            s.prev_dx_milli as int,
        ),
        abs_val(step_spec(s, ClientEvent::MouseMove(d), now_ms).0.prev_dy_milli as int) <= abs_val(
            s.prev_dy_milli as int,
        ),
        s.prev_dx_milli != 0 ==> abs_val(
            step_spec(s, ClientEvent::MouseMove(d), now_ms).0.prev_dx_milli as int,
        ) < abs_val(s.prev_dx_milli as int),
        s.prev_dy_milli != 0 ==> abs_val(
            step_spec(s, ClientEvent::MouseMove(d), now_ms).0.prev_dy_milli as int,
        ) < abs_val(s.prev_dy_milli as int),
        step_spec(s, ClientEvent::MouseMove(d), now_ms).1 is Some ==> !(round_milli_spec(
            move_cur_spec(
                0,
                s.prev_dx_milli as int,
                speed_milli_spec(d.sx_milli as int, d.sy_milli as int),
                near_edge_spec(d),
            ),
        ) == 0 && round_milli_spec(
            move_cur_spec(
                0,
                s.prev_dy_milli as int,
                speed_milli_spec(d.sx_milli as int, d.sy_milli as int),
                near_edge_spec(d),
            ),
        ) == 0),
{
    let speed = speed_milli_spec(d.sx_milli as int, d.sy_milli as int);
    let near = near_edge_spec(d);
    lemma_decay_component(s.prev_dx_milli as int, speed, near);
    lemma_decay_component(s.prev_dy_milli as int, speed, near);
    let cx = move_cur_spec(0, s.prev_dx_milli as int, speed, near);
    let cy = move_cur_spec(0, s.prev_dy_milli as int, speed, near);
    lemma_div_is_ordered(abs_val(cx) + 500, 999_999, 1000);
    lemma_div_is_ordered(abs_val(cy) + 500, 999_999, 1000);
    assert(abs_val(round_milli_spec(cx)) < 1000);
    assert(abs_val(round_milli_spec(cy)) < 1000);
    lemma_scale_milli_shrinks(cx, 500);
    lemma_scale_milli_shrinks(cy, 500);
}

/// Precision scaling: below the speed threshold and away from the edges,
/// the emitted delta is exactly the raw delta scaled by the precision
/// factor and rounded, independent of any carried inertia.
pub proof fn lemma_precision_scaling(s: Interpreter, d: MoveData, now_ms: u64)
    requires
        s.wf(),
        d.wf(),
        d.touches != 2,
        speed_milli_spec(d.sx_milli as int, d.sy_milli as int) < SPEED_THRESHOLD_MILLI as int,
        !near_edge_spec(d),
        abs_val(round_milli_spec(scale_milli_spec(d.dx_milli as int, PRECISION_FACTOR_MILLI as int))) < OUTLIER_LIMIT_PX
            as int,
        abs_val(round_milli_spec(scale_milli_spec(d.dy_milli as int, PRECISION_FACTOR_MILLI as int))) < OUTLIER_LIMIT_PX
            as int,
        !(round_milli_spec(scale_milli_spec(d.dx_milli as int, PRECISION_FACTOR_MILLI as int)) == 0 && round_milli_spec(
            scale_milli_spec(d.dy_milli as int, PRECISION_FACTOR_MILLI as int),
        ) == 0),
    ensures
        step_spec(s, ClientEvent::MouseMove(d), now_ms).1 == Some(
            Action::MoveRelative {
                dx: round_milli_spec(scale_milli_spec(d.dx_milli as int, PRECISION_FACTOR_MILLI as int)) as i32,
                dy: round_milli_spec(scale_milli_spec(d.dy_milli as int, PRECISION_FACTOR_MILLI as int)) as i32,
            },
        ),
{
    assert(scale_milli_spec(0, INERTIA_FACTOR_MILLI as int) == 0);
}

/// A click resets the inertia carry: the move sample that follows a click,
/// taken at the neutral speed and away from the edges, emits exactly its
/// own rounded delta, with no inertia contribution.
pub proof fn lemma_click_resets_inertia(
    s: Interpreter,
    b: MouseButton,
    d: MoveData,
    t1: u64,
    t2: u64,
)
    requires
        s.wf(),
        d.wf(),
        d.touches != 2,
        speed_milli_spec(d.sx_milli as int, d.sy_milli as int) == SPEED_THRESHOLD_MILLI as int,
        !near_edge_spec(d),
        abs_val(round_milli_spec(d.dx_milli as int)) < OUTLIER_LIMIT_PX as int,
        abs_val(round_milli_spec(d.dy_milli as int)) < OUTLIER_LIMIT_PX as int,
        !(round_milli_spec(d.dx_milli as int) == 0 && round_milli_spec(d.dy_milli as int) == 0),
    ensures
        step_spec(step_spec(s, ClientEvent::MouseClick(b), t1).0, ClientEvent::MouseMove(d), t2).1
            == Some(
            Action::MoveRelative {
                dx: round_milli_spec(d.dx_milli as int) as i32,
                dy: round_milli_spec(d.dy_milli as int) as i32,
            },
        ),
{
    assert(scale_milli_spec(0, INERTIA_FACTOR_MILLI as int) == 0);
}

} // verus!

