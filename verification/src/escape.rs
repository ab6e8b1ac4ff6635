//! The escape-time evaluator: a pure function from a plane point and an
//! iteration cap to an iteration count.
//!
//! The recurrence is a deliberate absolute-value variant of the classic
//! quadratic escape-time formula: each new coordinate is replaced by its
//! absolute value before the next squaring step. The count is the number
//! of steps taken before `x^2 + y^2` reaches 4.0, saturating at the cap.

use vstd::prelude::*;

use crate::float64::{
    F64_FOUR, F64_POS_ZERO, F64_TWO, abs_bits, add_bits, div_bits, f64_abs, f64_add, f64_div,
    f64_from_u32, f64_lt, f64_mul, f64_sub, from_u32_bits, lt_bits, mul_bits, sub_bits,
};

verus! {

/// The next `x` coordinate of the recurrence: `|x2 - y2 + x0|`.
pub open spec fn next_x_bits(x2: u64, y2: u64, x0: u64) -> u64 {
    abs_bits(add_bits(sub_bits(x2, y2), x0))
}

/// The next `y` coordinate of the recurrence: `|2*x*y + y0|`.
pub open spec fn next_y_bits(x: u64, y: u64, y0: u64) -> u64 {
    abs_bits(add_bits(mul_bits(mul_bits(F64_TWO, x), y), y0))
}

/// Number of further steps the escape loop takes from state
/// `(x, y, x2, y2)` with `fuel` steps still allowed: zero once
/// `x2 + y2 < 4.0` fails or the fuel is spent, else one more than the
/// count from the stepped state.
pub open spec fn escape_count_from(
    x: u64,
    y: u64,
    x2: u64,
    y2: u64,
    x0: u64,
    y0: u64,
    fuel: nat,
) -> nat
    decreases fuel,
{
    if fuel == 0 || !lt_bits(add_bits(x2, y2), F64_FOUR) {
        0
    } else {
        let xn = next_x_bits(x2, y2, x0);
        let yn = next_y_bits(x, y, y0);
        1 + escape_count_from(
            xn,
            yn,
            mul_bits(xn, xn),
            mul_bits(yn, yn),
            x0,
            y0,
            (fuel - 1) as nat,
        )
    }
}

/// Escape-iteration count of the plane point `(x0, y0)`: the recurrence is
/// started from `x = y = x2 = y2 = 0.0` with at most `max_iterations` steps.
pub open spec fn escape_count(x0: u64, y0: u64, max_iterations: u16) -> nat {
    escape_count_from(
        F64_POS_ZERO,
        F64_POS_ZERO,
        F64_POS_ZERO,
        F64_POS_ZERO,
        x0,
        y0,
        max_iterations as nat,
    )
}

/// The escape count never exceeds the fuel: the loop runs at most `fuel`
/// more times. Instantiated at the initial state this bounds every count
/// by the iteration cap.
pub proof fn lemma_escape_count_le_fuel(
    x: u64,
    y: u64,
    x2: u64,
    y2: u64,
    x0: u64,
    y0: u64,
    fuel: nat,
)
    ensures
        escape_count_from(x, y, x2, y2, x0, y0, fuel) <= fuel,
    decreases fuel,
{
    if fuel > 0 && lt_bits(add_bits(x2, y2), F64_FOUR) {
        let xn = next_x_bits(x2, y2, x0);
        let yn = next_y_bits(x, y, y0);
        lemma_escape_count_le_fuel(
            xn,
            yn,
            mul_bits(xn, xn),
            mul_bits(yn, yn),
            x0,
            y0,
            (fuel - 1) as nat,
        );
    }
}

/// With a zero iteration cap the loop body never runs, whatever the point:
/// the count is zero.
pub proof fn lemma_zero_cap_count(x0: u64, y0: u64)
    ensures
        escape_count(x0, y0, 0) == 0,
{
}

/// Plane coordinate of pixel index `idx` along an axis of `extent` pixels
/// that spans `diff` starting at `lo` (the span may be negative or zero):
/// `lo + diff * idx / extent`, computed in binary64 arithmetic.
pub open spec fn coord_bits(lo: u64, diff: u64, idx: u32, extent: u32) -> u64 {
    add_bits(lo, div_bits(mul_bits(diff, from_u32_bits(idx)), from_u32_bits(extent)))
}

/// Maps a pixel index to its plane coordinate, exactly as `coord_bits`
/// states it.
pub fn coord(lo: u64, diff: u64, idx: u32, extent: u32) -> (r: u64)
    ensures
        r == coord_bits(lo, diff, idx, extent),
{
    let idx_f: u64 = f64_from_u32(idx);
    let extent_f: u64 = f64_from_u32(extent);
    f64_add(lo, f64_div(f64_mul(diff, idx_f), extent_f))
}

/// Runs the escape loop for the plane point `(x0, y0)` and returns the
/// iteration count, which equals the spec-level `escape_count` and is at
/// most `max_iterations`.
pub fn escape_iterations(x0: u64, y0: u64, max_iterations: u16) -> (count: u16)
    ensures
        count as nat == escape_count(x0, y0, max_iterations),
        count <= max_iterations,
{
    let mut x: u64 = F64_POS_ZERO;
    let mut y: u64 = F64_POS_ZERO;
    let mut x2: u64 = F64_POS_ZERO;
    let mut y2: u64 = F64_POS_ZERO;
    let mut iteration: u16 = 0;
    loop
        invariant_except_break
            iteration <= max_iterations,
            escape_count(x0, y0, max_iterations) == iteration as nat + escape_count_from(
                x,
                y,
                x2,
                y2,
                x0,
                y0,
                (max_iterations - iteration) as nat,
            ),
        ensures
            iteration as nat == escape_count(x0, y0, max_iterations),
            iteration <= max_iterations,
        decreases max_iterations - iteration,
    {
        let sum: u64 = f64_add(x2, y2);
        if !(f64_lt(sum, F64_FOUR) && iteration < max_iterations) {
            proof {
                assert(escape_count_from(
                    x,
                    y,
                    x2,
                    y2,
                    x0,
                    y0,
                    (max_iterations - iteration) as nat,
                ) == 0);
            }
            break;
        }
        let xn: u64 = f64_abs(f64_add(f64_sub(x2, y2), x0));
        let yn: u64 = f64_abs(f64_add(f64_mul(f64_mul(F64_TWO, x), y), y0));
        proof {
            assert(escape_count_from(x, y, x2, y2, x0, y0, (max_iterations - iteration) as nat)
                == 1 + escape_count_from(
                next_x_bits(x2, y2, x0),
                next_y_bits(x, y, y0),
                mul_bits(next_x_bits(x2, y2, x0), next_x_bits(x2, y2, x0)),
                mul_bits(next_y_bits(x, y, y0), next_y_bits(x, y, y0)),
                x0,
                y0,
                (max_iterations - (iteration + 1)) as nat,
            ));
        }
        x = xn;
        y = yn;
        x2 = f64_mul(x, x);
        y2 = f64_mul(y, y);
        iteration = iteration + 1;
    }
    iteration
}

} // verus!
