//! Behavioural tests for the PID controller, exercised through the `i32`
//! and `i64` scalar instances.

use pid::PID;

#[test]
fn returns_correct_result_with_i32() {
    let mut pid: PID<i32> = PID::new(100, 0, 0, None);
    let output = pid.calculate(50, 0, 200);
    assert!(output == 5000);
}

#[test]
fn panic_when_delta_time_0() {
    let mut pid: PID<i32> = PID::new(100, 0, 0, None);
    assert!(pid.calculate(50, 0, 0) == 0);
}

#[test]
fn pure_proportional_output() {
    let mut pid: PID<i64> = PID::new(7, 0, 0, None);
    assert_eq!(pid.calculate(9, 4, 3), 7 * (9 - 4));
}

#[test]
fn integral_accumulates_then_scales() {
    let mut pid: PID<i64> = PID::new(0, 1, 0, None);
    // error = 10, integral = (0 + 10) * 2 = 20
    assert_eq!(pid.calculate(10, 0, 2), 20);
    // error = 10, integral = (20 + 10) * 2 = 60, not 20 + 10 * 2
    assert_eq!(pid.calculate(10, 0, 2), 60);
}

#[test]
fn nonpositive_delta_time_repeats_last_output() {
    let mut pid: PID<i64> = PID::new(100, 0, 0, None);
    assert_eq!(pid.calculate(50, 0, 200), 5000);
    assert_eq!(pid.calculate(50, 0, 0), 5000);
    assert_eq!(pid.calculate(123, 456, -7), 5000);
    // The history is untouched too: the next real cycle behaves as if the
    // bad timesteps had never happened.
    assert_eq!(pid.calculate(50, 0, 1), 5000);
}

#[test]
fn integral_clamped_at_positive_limit() {
    let mut pid: PID<i64> = PID::new(0, 1, 0, Some(10));
    // raw integral (0 + 100) * 1 = 100 saturates to 10
    assert_eq!(pid.calculate(100, 0, 1), 10);
}

#[test]
fn integral_clamped_at_negative_limit() {
    let mut pid: PID<i64> = PID::new(0, 1, 0, Some(10));
    // raw integral (0 - 100) * 1 = -100 saturates to -10
    assert_eq!(pid.calculate(-100, 0, 1), -10);
}

#[test]
fn integral_within_limit_passes_unclamped() {
    let mut pid: PID<i64> = PID::new(0, 1, 0, Some(10));
    assert_eq!(pid.calculate(4, 0, 2), 8);
}

#[test]
fn zero_clamp_forces_zero_integral() {
    // A limit of zero is a real configuration, distinct from "unclamped":
    // the integral term is pinned at zero.
    let mut pid: PID<i64> = PID::new(0, 1, 0, Some(0));
    assert_eq!(pid.calculate(100, 0, 1), 0);
}

#[test]
fn derivative_of_error_change() {
    let mut pid: PID<i64> = PID::new(0, 0, 1, None);
    // derivative = (10 - 0) / 2 = 5
    assert_eq!(pid.calculate(10, 0, 2), 5);
    // error unchanged, so derivative = (10 - 10) / 2 = 0
    assert_eq!(pid.calculate(10, 0, 2), 0);
}

#[test]
fn derivative_division_truncates_toward_zero() {
    let mut pid: PID<i32> = PID::new(0, 0, 1, None);
    // derivative = (-3 - 0) / 2 = -1 with the scalar's own division
    assert_eq!(pid.calculate(-3, 0, 2), -1);
}

#[test]
fn zero_error_keeps_output_zero() {
    let mut pid: PID<i64> = PID::new(3, 5, 7, None);
    for _ in 0..4 {
        assert_eq!(pid.calculate(42, 42, 2), 0);
    }
}

#[test]
fn gains_readable_and_settable() {
    let mut pid: PID<i32> = PID::new(1, 2, 3, None);
    assert_eq!(pid.gain_p(), 1);
    assert_eq!(pid.gain_i(), 2);
    assert_eq!(pid.gain_d(), 3);
    pid.set_gain_p(10);
    pid.set_gain_i(20);
    pid.set_gain_d(30);
    assert_eq!(pid.gain_p(), 10);
    assert_eq!(pid.gain_i(), 20);
    assert_eq!(pid.gain_d(), 30);
}

#[test]
fn new_gain_applies_from_next_cycle() {
    let mut pid: PID<i64> = PID::new(2, 0, 0, None);
    assert_eq!(pid.calculate(10, 0, 1), 20);
    pid.set_gain_p(5);
    assert_eq!(pid.calculate(10, 0, 1), 50);
}

#[test]
fn integral_limit_installable_but_not_removable() {
    let mut pid: PID<i32> = PID::new(0, 1, 0, None);
    assert_eq!(pid.integral_limit(), None);
    pid.set_integral_limit(25);
    assert_eq!(pid.integral_limit(), Some(25));
    // The interface offers no way back to None.
    pid.set_integral_limit(30);
    assert_eq!(pid.integral_limit(), Some(30));
}
