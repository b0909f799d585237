//! Single-precision arithmetic on whole numbers, without floating point.
//!
//! A single-precision number has 24 significant bits. A whole number that needs
//! more is taken to the nearest one that does not; between two equally near it
//! goes to the one whose last significant bit is zero.

use vstd::prelude::*;

verus! {

/// The distance between neighbouring single-precision numbers near `n`: the
/// least of `unit`, `2 * unit`, `4 * unit`, ... of which 24 bits' worth exceed `n`.
pub open spec fn spacing(n: nat, unit: nat) -> nat
    decreases n - unit,
{
    if unit == 0 || n < 16_777_216 * unit {
        unit
    } else {
        spacing(n, 2 * unit)
    }
}

/// `n` as a single-precision number.
pub open spec fn single(n: nat) -> nat {
    let unit = spacing(n, 1);
    let q = n / unit;
    let r = n % unit;
    if 2 * r > unit || (2 * r == unit && q % 2 == 1) {
        (q + 1) * unit
    } else {
        q * unit
    }
}

/// `n` as a single-precision number.
pub fn to_single(n: u128) -> (r: u128)
    requires
        n < 0x1000_0000_0000_0000_0000_0000_0000_0000,
    ensures
        r == single(n as nat),
        r <= 2 * n,
{
    let mut unit: u128 = 1;
    while n >= 16_777_216 * unit
        invariant
            0 < unit,
            unit == 1 || unit <= n,
            n < 0x1000_0000_0000_0000_0000_0000_0000_0000,
            unit * 8_388_608 <= n || unit == 1,
            spacing(n as nat, 1) == spacing(n as nat, unit as nat),
        decreases n - unit,
    {
        unit = 2 * unit;
    }
    let q: u128 = n / unit;
    let r: u128 = n % unit;
    proof {
        assert(q * unit <= n && q * unit + r == n) by (nonlinear_arith)
            requires
                q == n / unit,
                r == n % unit,
                0 < unit,
        ;
        assert((q + 1) * unit == q * unit + unit) by (nonlinear_arith);
        assert(n < unit ==> unit == 1);
    }
    if 2 * r > unit || (2 * r == unit && q % 2 == 1) {
        (q + 1) * unit
    } else {
        q * unit
    }
}

/// A number of up to 24 bits is itself, and so is the next one.
pub proof fn lemma_single_small(n: nat)
    requires
        n <= 16_777_216,
    ensures
        single(n) == n,
{
    if n < 16_777_216 {
        assert(spacing(n, 1) == 1);
        assert(n % 1 == 0);
        assert(n / 1 == n);
    } else {
        assert(spacing(n, 2) == 2);
        assert(spacing(n, 1) == 2);
    }
}

} // verus!
