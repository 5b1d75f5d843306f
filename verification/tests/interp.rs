use remote_touchpad::event::{Action, ClientEvent, MouseButton, MoveData};
use remote_touchpad::interp::Interpreter;

fn far_from_edge(dx: i64, dy: i64, sx: i64, sy: i64, touches: i32) -> ClientEvent {
    ClientEvent::MouseMove(MoveData {
        dx_milli: dx,
        dy_milli: dy,
        sx_milli: sx,
        sy_milli: sy,
        touches,
        width_milli: 1_000_000_000,
        height_milli: 1_000_000_000,
        x_milli: 500_000_000,
        y_milli: 500_000_000,
    })
}

#[test]
fn precision_scaling_reduces_delta() {
    // speed sqrt(0.1^2 + 0.1^2) ~ 0.141 is below the threshold: x0.9.
    let mut it = Interpreter::new();
    let a = it.step(&far_from_edge(15_000, -25_000, 100, 100, 1), 0);
    assert_eq!(a, Some(Action::MoveRelative { dx: 14, dy: -23 }));
    assert_eq!(it.prev_dx_milli, 13_500);
    assert_eq!(it.prev_dy_milli, -22_500);
}

#[test]
fn precision_resets_carry_before_inertia() {
    let mut it = Interpreter::new();
    // Build a carry at the neutral speed (exactly 0.7).
    let a = it.step(&far_from_edge(10_000, 0, 700, 0, 1), 0);
    assert_eq!(a, Some(Action::MoveRelative { dx: 10, dy: 0 }));
    assert_eq!(it.prev_dx_milli, 10_000);
    // A slow sample scales only its own delta: no 0.08 * carry is added
    // (with the carry kept, 900 + 800 would round to 2 instead).
    let a = it.step(&far_from_edge(1000, 0, 0, 0, 1), 1);
    assert_eq!(a, Some(Action::MoveRelative { dx: 1, dy: 0 }));
    assert_eq!(it.prev_dx_milli, 900);
}

#[test]
fn neutral_speed_passes_delta_through() {
    let mut it = Interpreter::new();
    let a = it.step(&far_from_edge(5000, -7000, 700, 0, 1), 0);
    assert_eq!(a, Some(Action::MoveRelative { dx: 5, dy: -7 }));
}

#[test]
fn inertia_carry_is_added_next_frame() {
    let mut it = Interpreter::new();
    it.step(&far_from_edge(10_000, 0, 700, 0, 1), 0);
    // 10000 + 0.08 * 10000 = 10800, rounds to 11.
    let a = it.step(&far_from_edge(10_000, 0, 700, 0, 1), 1);
    assert_eq!(a, Some(Action::MoveRelative { dx: 11, dy: 0 }));
    assert_eq!(it.prev_dx_milli, 10_800);
}

#[test]
fn acceleration_regime_scales_up() {
    // speed 1.5: excess 0.8, factor 1 + 1.05 * 0.8^1.4 = 1.767 in fixed point.
    let mut it = Interpreter::new();
    let a = it.step(&far_from_edge(10_000, 0, 1500, 0, 1), 0);
    assert_eq!(a, Some(Action::MoveRelative { dx: 18, dy: 0 }));
    assert_eq!(it.prev_dx_milli, 17_670);
}

#[test]
fn outlier_is_discarded_and_resets_carry() {
    let mut it = Interpreter::new();
    it.step(&far_from_edge(10_000, 0, 700, 0, 1), 0);
    assert_eq!(it.prev_dx_milli, 10_000);
    // 2000 px at x0.9 rounds to 1800 >= 1000: no actuation, carry cleared.
    let a = it.step(&far_from_edge(2_000_000, 0, 0, 0, 1), 1);
    assert_eq!(a, None);
    assert_eq!(it.prev_dx_milli, 0);
    assert_eq!(it.prev_dy_milli, 0);
}

#[test]
fn outlier_boundary_999_px_still_moves() {
    let mut it = Interpreter::new();
    let a = it.step(&far_from_edge(999_000, 0, 700, 0, 1), 0);
    assert_eq!(a, Some(Action::MoveRelative { dx: 999, dy: 0 }));
    let mut it = Interpreter::new();
    let a = it.step(&far_from_edge(999_500, 0, 700, 0, 1), 0);
    assert_eq!(a, None);
    assert_eq!(it.prev_dx_milli, 0);
}

#[test]
fn zero_round_decays_carry_monotonically() {
    let mut it = Interpreter::new();
    it.step(&far_from_edge(3000, 0, 700, 0, 1), 0);
    assert_eq!(it.prev_dx_milli, 3000);
    // 0.08 * 3000 = 240 rounds to 0: halve after inertia, no actuation.
    assert_eq!(it.step(&far_from_edge(0, 0, 700, 0, 1), 1), None);
    assert_eq!(it.prev_dx_milli, 120);
    assert_eq!(it.step(&far_from_edge(0, 0, 700, 0, 1), 2), None);
    assert_eq!(it.prev_dx_milli, 4);
    assert_eq!(it.step(&far_from_edge(0, 0, 700, 0, 1), 3), None);
    assert_eq!(it.prev_dx_milli, 0);
    assert_eq!(it.step(&far_from_edge(0, 0, 700, 0, 1), 4), None);
    assert_eq!(it.prev_dx_milli, 0);
}

#[test]
fn edge_damping_scales_delta_and_carry() {
    let mut it = Interpreter::new();
    let near_edge = ClientEvent::MouseMove(MoveData {
        dx_milli: 10_000,
        dy_milli: 0,
        sx_milli: 700,
        sy_milli: 0,
        touches: 1,
        width_milli: 1_000_000,
        height_milli: 1_000_000,
        x_milli: 10_000,
        y_milli: 500_000,
    });
    let a = it.step(&near_edge, 0);
    assert_eq!(a, Some(Action::MoveRelative { dx: 7, dy: 0 }));
    assert_eq!(it.prev_dx_milli, 7000);
    // Second sample: carry damped to 4900 before the 0.08 inertia share.
    let a = it.step(&near_edge, 1);
    assert_eq!(a, Some(Action::MoveRelative { dx: 7, dy: 0 }));
    assert_eq!(it.prev_dx_milli, 7392);
}

#[test]
fn scroll_emits_inverted_ticks() {
    let mut it = Interpreter::new();
    // dy -4 px: 2.5 * -4 * (1 + 0.6) = -16, inverted to 16.
    let a = it.step(&far_from_edge(0, -4000, 0, 0, 2), 1000);
    assert_eq!(a, Some(Action::ScrollY { amount: 16 }));
    assert_eq!(it.last_scroll_time_ms, 1000);
}

#[test]
fn scroll_small_delta_rounds_to_ticks() {
    let mut it = Interpreter::new();
    // dy 1 px: 2.5 * (1 + 0.15) = 2.875, rounds to 3, inverted to -3.
    let a = it.step(&far_from_edge(0, 1000, 0, 0, 2), 1000);
    assert_eq!(a, Some(Action::ScrollY { amount: -3 }));
}

#[test]
fn scroll_throttled_within_interval() {
    let mut it = Interpreter::new();
    assert!(it.step(&far_from_edge(0, -4000, 0, 0, 2), 1000).is_some());
    assert_eq!(it.step(&far_from_edge(0, -4000, 0, 0, 2), 1010), None);
    assert_eq!(it.last_scroll_time_ms, 1000);
    assert!(it.step(&far_from_edge(0, -4000, 0, 0, 2), 1025).is_some());
    assert_eq!(it.last_scroll_time_ms, 1025);
}

#[test]
fn scroll_resets_carry_even_when_throttled() {
    let mut it = Interpreter::new();
    assert!(it.step(&far_from_edge(0, -4000, 0, 0, 2), 1000).is_some());
    it.step(&far_from_edge(10_000, 0, 700, 0, 1), 1001);
    assert_eq!(it.prev_dx_milli, 10_000);
    assert_eq!(it.step(&far_from_edge(0, -4000, 0, 0, 2), 1002), None);
    assert_eq!(it.prev_dx_milli, 0);
    assert_eq!(it.prev_dy_milli, 0);
}

#[test]
fn two_fingers_never_move_the_pointer() {
    let mut it = Interpreter::new();
    // Huge horizontal delta, zero vertical: no scroll tick, and no move.
    let a = it.step(&far_from_edge(500_000, 0, 1500, 0, 2), 1000);
    assert_eq!(a, None);
    let a = it.step(&far_from_edge(500_000, -4000, 1500, 0, 2), 2000);
    assert_eq!(a, Some(Action::ScrollY { amount: 16 }));
}

#[test]
fn click_emits_and_resets_carry() {
    let mut it = Interpreter::new();
    it.step(&far_from_edge(10_000, 0, 700, 0, 1), 0);
    assert_eq!(it.prev_dx_milli, 10_000);
    let a = it.step(&ClientEvent::MouseClick(MouseButton::Right), 1);
    assert_eq!(a, Some(Action::Click { button: MouseButton::Right }));
    assert_eq!(it.prev_dx_milli, 0);
    assert_eq!(it.prev_dy_milli, 0);
    // The next neutral sample carries no inertia: exactly its own delta.
    let a = it.step(&far_from_edge(5000, -7000, 700, 0, 1), 2);
    assert_eq!(a, Some(Action::MoveRelative { dx: 5, dy: -7 }));
}

#[test]
fn key_press_leaves_carry_alone() {
    let mut it = Interpreter::new();
    it.step(&far_from_edge(10_000, 0, 700, 0, 1), 0);
    let a = it.step(&ClientEvent::KeyPress('a'), 1);
    assert_eq!(a, Some(Action::KeyTap { key: 'a' }));
    assert_eq!(it.prev_dx_milli, 10_000);
}

#[test]
fn clamped_constructor_limits_fields() {
    let d = MoveData::clamped(
        2_000_000_000_000,
        -2_000_000_000_000,
        300_000,
        -300_000,
        1,
        2_000_000_000_000_000,
        0,
        -2_000_000_000_000_000,
        7,
    );
    assert_eq!(d.dx_milli, 1_000_000_000);
    assert_eq!(d.dy_milli, -1_000_000_000);
    assert_eq!(d.sx_milli, 100_000);
    assert_eq!(d.sy_milli, -100_000);
    assert_eq!(d.touches, 1);
    assert_eq!(d.width_milli, 1_000_000_000_000);
    assert_eq!(d.height_milli, 0);
    assert_eq!(d.x_milli, -1_000_000_000_000);
    assert_eq!(d.y_milli, 7);
}
