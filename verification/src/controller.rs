//! The PID controller and its specification.
//!
//! Every contract speaks about [`PidView`], the mathematical image of a
//! controller: each stored scalar replaced by the unbounded integer it
//! stands for. One control cycle is described by [`step`] (the state the
//! cycle commits) and [`step_output`] (the correction it returns).

use vstd::prelude::*;

use crate::numeric::Numeric;

verus! {

/// The mathematical image of a controller: each stored scalar as the
/// integer it stands for.
pub struct PidView {
    pub previous_error: int,
    pub previous_integral: int,
    pub gain_p: int,
    pub gain_i: int,
    pub gain_d: int,
    pub integral_limit: Option<int>,
    pub previous_output: int,
}

/// The image of an optional scalar.
pub open spec fn opt_as_int<T: Numeric>(v: Option<T>) -> Option<int> {
    match v {
        Some(x) => Some(x.as_int()),
        None => None,
    }
}

/// Saturates `raw` into `[-limit, limit]` when a limit is present;
/// otherwise leaves it alone.
pub open spec fn clamped(raw: int, limit: Option<int>) -> int {
    match limit {
        Some(l) => if raw > l {
            l
        } else if raw < -l {
            -l
        } else {
            raw
        },
        None => raw,
    }
}

/// The state committed by one call with a positive `dt`: the new error,
/// the rescaled and clamped integral, and the output; gains and limit are
/// untouched.
pub open spec fn committed_state<T: Numeric>(s: PidView, sp: int, mv: int, dt: int) -> PidView {
    let e = sp - mv;
    let i = clamped((s.previous_integral + e) * dt, s.integral_limit);
    let d = T::div_spec(e - s.previous_error, dt);
    PidView {
        previous_error: e,
        previous_integral: i,
        previous_output: e * s.gain_p + i * s.gain_i + d * s.gain_d,
        ..s
    }
}

/// The state after one call: committed when `dt` is positive, untouched
/// otherwise.
pub open spec fn step<T: Numeric>(s: PidView, sp: int, mv: int, dt: int) -> PidView {
    if dt > 0 {
        committed_state::<T>(s, sp, mv, dt)
    } else {
        s
    }
}

/// The output of one call: freshly computed when `dt` is positive, the
/// previous output otherwise.
pub open spec fn step_output<T: Numeric>(s: PidView, sp: int, mv: int, dt: int) -> int {
    step::<T>(s, sp, mv, dt).previous_output
}

/// Whether every intermediate value of one positive-`dt` cycle fits the
/// scalar representation: the only machine-imposed precondition of
/// [`PID::calculate`].
pub open spec fn step_fits<T: Numeric>(s: PidView, sp: int, mv: int, dt: int) -> bool {
    let e = sp - mv;
    let raw = (s.previous_integral + e) * dt;
    let i = clamped(raw, s.integral_limit);
    let d = T::div_spec(e - s.previous_error, dt);
    &&& T::fits(e)
    &&& T::fits(s.previous_integral + e)
    &&& T::fits(raw)
    &&& (match s.integral_limit {
        Some(l) => raw <= l ==> T::fits(-l),
        None => true,
    })
    &&& T::fits(e - s.previous_error)
    &&& T::fits(d)
    &&& T::fits(e * s.gain_p)
    &&& T::fits(i * s.gain_i)
    &&& T::fits(d * s.gain_d)
    &&& T::fits(e * s.gain_p + i * s.gain_i)
    &&& T::fits(e * s.gain_p + i * s.gain_i + d * s.gain_d)
}

/// A proportional-integral-derivative controller over the scalar type `T`.
///
/// It owns its gains, an optional symmetric clamp on the accumulated
/// integral, and the history one cycle leaves for the next: the previous
/// error, the previous (clamped) integral and the previous output. The
/// history starts at zero and is rewritten only as a unit, by a
/// [`PID::calculate`] call with a positive elapsed time.
#[derive(Clone, Copy)]
pub struct PID<T> {
    previous_error: T,
    previous_integral: T,
    gain_p: T,
    gain_i: T,
    gain_d: T,
    integral_limit: Option<T>,
    previous_output: T,
}

impl<T: Numeric> View for PID<T> {
    type V = PidView;

    closed spec fn view(&self) -> PidView {
        PidView {
            previous_error: self.previous_error.as_int(),
            previous_integral: self.previous_integral.as_int(),
            gain_p: self.gain_p.as_int(),
            gain_i: self.gain_i.as_int(),
            gain_d: self.gain_d.as_int(),
            integral_limit: opt_as_int(self.integral_limit),
            previous_output: self.previous_output.as_int(),
        }
    }
}

impl<T: Numeric> PID<T> {
    /// Builds a controller with the given gains and optional integral
    /// clamp; the history starts at zero. Gains and clamp are stored
    /// unexamined: their fitness is a tuning question the caller owns.
    pub fn new(gain_p: T, gain_i: T, gain_d: T, integral_limit: Option<T>) -> (r: Self)
        ensures
            r@ == (PidView {
                previous_error: 0,
                previous_integral: 0,
                gain_p: gain_p.as_int(),
                gain_i: gain_i.as_int(),
                gain_d: gain_d.as_int(),
                integral_limit: opt_as_int(integral_limit),
                previous_output: 0,
            }),
    {
        Self {
            previous_error: T::zero(),
            previous_integral: T::zero(),
            gain_p,
            gain_i,
            gain_d,
            integral_limit,
            previous_output: T::zero(),
        }
    }

    /// Advances the controller by one control cycle.
    ///
    /// With a positive `delta_time` it computes the error
    /// `set_point - measured_value`, rescales the whole accumulated
    /// integral by `delta_time` (`(previous_integral + error) * delta_time`
    /// — accumulate-then-scale, the documented behaviour of this
    /// algorithm), saturates it into `[-limit, limit]` when a clamp is
    /// installed, estimates the derivative as
    /// `(error - previous_error) / delta_time`, and returns the gain-
    /// weighted sum of the three terms, committing error, integral and
    /// output as the new history.
    ///
    /// With a zero or negative `delta_time` the call is a no-op on state
    /// and repeats the previous output, so a control loop never aborts on
    /// one malformed timestep.
    pub fn calculate(&mut self, set_point: T, measured_value: T, delta_time: T) -> (output: T)
        requires
            delta_time.as_int() > 0 ==> step_fits::<T>(
                old(self)@,
                set_point.as_int(),
                measured_value.as_int(),
                delta_time.as_int(),
            ),
        ensures
            final(self)@ == step::<T>(
                old(self)@,
                set_point.as_int(),
                measured_value.as_int(),
                delta_time.as_int(),
            ),
            output.as_int() == step_output::<T>(
                old(self)@,
                set_point.as_int(),
                measured_value.as_int(),
                delta_time.as_int(),
            ),
            delta_time.as_int() <= 0 ==> *final(self) == *old(self),
    {
        let zero = T::zero();
        if delta_time.le(zero) {
            return self.previous_output;
        }
        let error = set_point.minus(measured_value);
        let mut integral = self.previous_integral.plus(error).times(delta_time);
        let derivative = error.minus(self.previous_error).divide(delta_time);
        match self.integral_limit {
            Some(limit) => {
                if limit.lt(integral) {
                    integral = limit;
                } else {
                    let lower = limit.negate();
                    if integral.lt(lower) {
                        integral = lower;
                    }
                }
            },
            None => {},
        }
        self.previous_error = error;
        self.previous_integral = integral;
        let output = error.times(self.gain_p).plus(integral.times(self.gain_i)).plus(
            derivative.times(self.gain_d),
        );
        self.previous_output = output;
        output
    }

    /// The proportional gain.
    pub fn gain_p(&self) -> (r: T)
        ensures
            r.as_int() == self@.gain_p,
    {
        self.gain_p
    }

    /// Replaces the proportional gain; it applies from the next cycle on.
    pub fn set_gain_p(&mut self, value: T)
        ensures
            final(self)@ == (PidView { gain_p: value.as_int(), ..old(self)@ }),
    {
        self.gain_p = value;
    }

    /// The integral gain.
    pub fn gain_i(&self) -> (r: T)
        ensures
            r.as_int() == self@.gain_i,
    {
        self.gain_i
    }

    /// Replaces the integral gain; it applies from the next cycle on.
    pub fn set_gain_i(&mut self, value: T)
        ensures
            final(self)@ == (PidView { gain_i: value.as_int(), ..old(self)@ }),
    {
        self.gain_i = value;
    }

    /// The derivative gain.
    pub fn gain_d(&self) -> (r: T)
        ensures
            r.as_int() == self@.gain_d,
    {
        self.gain_d
    }

    /// Replaces the derivative gain; it applies from the next cycle on.
    pub fn set_gain_d(&mut self, value: T)
        ensures
            final(self)@ == (PidView { gain_d: value.as_int(), ..old(self)@ }),
    {
        self.gain_d = value;
    }

    /// The current integral clamp, or `None` when unclamped.
    pub fn integral_limit(&self) -> (r: Option<T>)
        ensures
            opt_as_int(r) == self@.integral_limit,
    {
        self.integral_limit
    }

    /// Installs an integral clamp. There is no way to remove one: a
    /// controller must be rebuilt to run unclamped again.
    pub fn set_integral_limit(&mut self, value: T)
        ensures
            final(self)@ == (PidView { integral_limit: Some(value.as_int()), ..old(self)@ }),
    {
        self.integral_limit = Some(value);
    }
}

/// With zero stored history and zero integral and derivative gains, a cycle
/// with positive elapsed time returns exactly the proportional correction
/// `gain_p * (set_point - measured_value)`, clamped or not.
pub proof fn lemma_pure_proportional<T: Numeric>(s: PidView, sp: int, mv: int, dt: int)
    requires
        dt > 0,
        s.previous_error == 0,
        s.previous_integral == 0,
        s.gain_i == 0,
        s.gain_d == 0,
    ensures
        step_output::<T>(s, sp, mv, dt) == s.gain_p * (sp - mv),
{
    let e: int = sp - mv;
    let i: int = clamped((s.previous_integral + e) * dt, s.integral_limit);
    let d: int = T::div_spec(e - s.previous_error, dt);
    assert(e * s.gain_p + i * s.gain_i + d * s.gain_d == s.gain_p * e) by (nonlinear_arith)
        requires
            s.gain_i == 0,
            s.gain_d == 0,
    {
    }
}

/// A cycle with zero or negative elapsed time changes nothing and repeats
/// the previous output.
pub proof fn lemma_nonpositive_dt_is_noop<T: Numeric>(s: PidView, sp: int, mv: int, dt: int)
    requires
        dt <= 0,
    ensures
        step::<T>(s, sp, mv, dt) == s,
        step_output::<T>(s, sp, mv, dt) == s.previous_output,
{
}

/// While a non-negative clamp `limit` is installed, the stored integral
/// stays within `[-limit, limit]` across any cycle, however extreme the
/// inputs: a cycle with positive elapsed time saturates the fresh integral
/// into that interval, and any other cycle leaves the stored one alone.
/// A fresh controller starts at zero, which the interval contains, so the
/// bound holds after every call.
pub proof fn lemma_integral_stays_within_limit<T: Numeric>(
    s: PidView,
    sp: int,
    mv: int,
    dt: int,
    limit: int,
)
    requires
        s.integral_limit == Some(limit),
        limit >= 0,
        -limit <= s.previous_integral <= limit,
    ensures
        -limit <= step::<T>(s, sp, mv, dt).previous_integral <= limit,
{
}

/// Once the target is met and the stored error and integral are zero, a
/// cycle with positive elapsed time keeps them at zero and outputs zero —
/// the new state satisfies these same premises, so every further such
/// cycle outputs zero as well. Holds without a clamp or with any
/// non-negative one.
pub proof fn lemma_zero_error_steady_state<T: Numeric>(s: PidView, v: int, dt: int)
    requires
        dt > 0,
        s.previous_error == 0,
        s.previous_integral == 0,
        (s.integral_limit matches Some(l) ==> l >= 0),
    ensures
        step_output::<T>(s, v, v, dt) == 0,
        step::<T>(s, v, v, dt) == (PidView { previous_output: 0, ..s }),
{
    T::div_spec_of_zero(dt);
    assert((s.previous_integral + (v - v)) * dt == 0) by (nonlinear_arith)
        requires
            s.previous_integral == 0,
    {
    }
    assert(clamped(0, s.integral_limit) == 0);
    assert(committed_state::<T>(s, v, v, dt).previous_output == 0 * s.gain_p + 0 * s.gain_i + 0
        * s.gain_d);
}

} // verus!
