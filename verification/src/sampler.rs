use rand::Rng;
use vstd::prelude::*;
use crate::error::MatrixError;
use crate::scalar::Test;

verus! {

/// The number of steps into which one unit of the sampled range is divided.
pub const SCALE: usize = 10_000;

/// The number of steps between `low` and `high`: the integer part of
/// `SCALE * (high - low)`, where the element type can say it.
pub open spec fn scaled_range<T: Test>(low: T, high: T) -> Option<usize> {
    match T::from_usize_spec(SCALE) {
        Some(scale) => scale.mul_spec(high.sub_spec(low)).to_usize_spec(),
        None => None,
    }
}

/// The sample that lies `step` steps above `low`: `low + step / SCALE`.
pub open spec fn sample_at<T: Test>(low: T, step: usize) -> Option<T> {
    match (T::from_usize_spec(step), T::from_usize_spec(SCALE)) {
        (Some(k), Some(scale)) => Some(low.add_spec(k.div_spec(scale))),
        _ => None,
    }
}

/// What a draw of `step` steps gives: the sample, or the failure to convert.
pub open spec fn sample_outcome<T: Test>(low: T, step: usize) -> Result<T, MatrixError> {
    match sample_at(low, step) {
        Some(v) => Ok(v),
        None => Err(MatrixError::NumericConversionFailure),
    }
}

/// `value` is one of the samples that a draw between `low` and `high` can give.
pub open spec fn can_draw<T: Test>(low: T, high: T, value: T) -> bool {
    exists|step: usize|
        sample_at(low, step) == Some(value) && (scaled_range(low, high) matches Some(n) && step < n)
}

/// Every draw between `low` and `high` gives a sample: the number of steps is
/// a positive `usize`, and the element type can hold each step below it.
pub open spec fn draws_never_fail<T: Test>(low: T, high: T) -> bool {
    scaled_range(low, high) matches Some(n) && n > 0 && forall|step: usize|
        step < n ==> sample_at(low, step) is Some
}

/// The bounds from which the weights of a layer with `fan_in` inputs are
/// drawn: `-1 / fan_in` and `1 / fan_in`.
pub open spec fn init_range<T: Test>(fan_in: usize) -> Option<(T, T)> {
    match T::from_usize_spec(fan_in) {
        Some(n) => Some((T::one_spec().neg_spec().div_spec(n), T::one_spec().div_spec(n))),
        None => None,
    }
}

/// A uniformly distributed integer below `bound`, from the generator of the
/// calling thread.
///
/// Calls `rand::thread_rng().gen_range(0..bound)`.  rand documents that the
/// value lies in the half-open range, and that the call panics on an empty
/// range, which the precondition rules out.  Nothing else is claimed: two
/// calls may differ.  The call fails only where the operating system gives
/// the generator no seed.
#[verifier::external_body]
fn draw_below(bound: usize) -> (step: usize)
    requires
        bound > 0,
    ensures
        step < bound,
{
    rand::thread_rng().gen_range(0..bound)
}

/// The number of steps that fit between `low` and `high`.
///
/// Fails with `NumericConversionFailure` where the scaled difference is no
/// number that `usize` holds (the bounds are too far apart, or not numbers),
/// and where it is zero (the bounds are less than one step apart, or in the
/// wrong order).
pub fn sample_steps<T: Test>(low: T, high: T) -> (steps: Result<usize, MatrixError>)
    ensures
        match steps {
            Ok(n) => n > 0 && scaled_range(low, high) == Some(n),
            Err(e) => e == MatrixError::NumericConversionFailure && (scaled_range(low, high) is None
                || scaled_range(low, high) == Some(0usize)),
        },
{
    let scale = match T::from_usize(SCALE) {
        Some(scale) => scale,
        None => { return Err(MatrixError::NumericConversionFailure); },
    };
    match scale.mul(high.sub(low)).to_usize() {
        Some(n) => if n > 0 {
            Ok(n)
        } else {
            Err(MatrixError::NumericConversionFailure)
        },
        None => Err(MatrixError::NumericConversionFailure),
    }
}

/// The sample for a draw of `step` steps: `low + step / SCALE`.
///
/// Fails with `NumericConversionFailure` where the element type cannot hold
/// `step` or `SCALE`.
pub fn sample_from_draw<T: Test>(low: T, step: usize) -> (sample: Result<T, MatrixError>)
    ensures
        sample == sample_outcome(low, step),
{
    let k = match T::from_usize(step) {
        Some(k) => k,
        None => { return Err(MatrixError::NumericConversionFailure); },
    };
    match T::from_usize(SCALE) {
        Some(scale) => Ok(low.add(k.div(scale))),
        None => Err(MatrixError::NumericConversionFailure),
    }
}

/// One value drawn from `[low, high)` with a resolution of `1 / SCALE`.
///
/// The range is cut into `scaled_range(low, high)` steps, a step is drawn
/// uniformly, and the result is `low` plus that many steps.  Where the number
/// of steps is no positive `usize` the call fails and draws nothing;
/// otherwise the result is the outcome of `sample_from_draw` for some step
/// below that number.
pub fn uniform_distribution<T: Test>(low: T, high: T) -> (sample: Result<T, MatrixError>)
    ensures
        match scaled_range(low, high) {
            Some(n) if n > 0 => exists|step: usize| step < n && sample == sample_outcome(low, step),
            _ => sample == Err::<T, MatrixError>(MatrixError::NumericConversionFailure),
        },
{
    match sample_steps(low, high) {
        Ok(n) => {
            let step = draw_below(n);
            sample_from_draw(low, step)
        },
        Err(e) => Err(e),
    }
}

} // verus!
