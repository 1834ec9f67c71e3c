//! Integer helpers shared by the calendar code: machine ranges and the
//! truncating division that Rust's `/` and `%` perform on signed integers.
use vstd::prelude::*;

verus! {

/// `x` is representable as an `i32`.
pub open spec fn fits_i32(x: int) -> bool {
    i32::MIN <= x <= i32::MAX
}

/// `x` is representable as an `i64`.
pub open spec fn fits_i64(x: int) -> bool {
    i64::MIN <= x <= i64::MAX
}

/// Division rounding toward zero, as Rust's `/` on signed integers (for `b > 0`).
pub open spec fn tdiv(a: int, b: int) -> int {
    if a >= 0 {
        a / b
    } else {
        -((-a) / b)
    }
}

/// Remainder matching `tdiv`, as Rust's `%` on signed integers.
pub open spec fn tmod(a: int, b: int) -> int {
    a - b * tdiv(a, b)
}

/// Smallest integer not below `a / b` (for `b > 0`).
pub open spec fn ceil_div(a: int, b: int) -> int {
    -((-a) / b)
}

} // verus!
