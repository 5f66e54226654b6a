//! Laws of coordinates and rectangles.

use vstd::prelude::*;

use crate::geometry::{distance, fits, greater, halfway, lesser, quotient, Rect};

verus! {

/// The point halfway between two coordinates is as far from one as from the other, or one
/// pixel off, then nearer to zero; it lies between the two.
pub proof fn law_halfway_is_the_middle(a: int, b: int)
    ensures
        -1 <= 2 * halfway(a, b) - (a + b) <= 1,
        a + b >= 0 ==> 0 <= 2 * halfway(a, b) <= a + b,
        a + b <= 0 ==> a + b <= 2 * halfway(a, b) <= 0,
        halfway(a, b) == halfway(b, a),
        a <= b ==> a <= halfway(a, b) <= b,
{
}

/// Two coordinates are as far apart as must be added to the smaller to get the larger.
pub proof fn law_distance_is_the_gap(a: int, b: int, gap: int)
    requires
        gap >= 0,
    ensures
        distance(a, a + gap) == gap,
        distance(a + gap, a) == gap,
        distance(a, b) == distance(b, a),
        distance(a, b) == 0 <==> a == b,
{
}

/// The lesser and the greater of two numbers are these two, in order.
pub proof fn law_lesser_and_greater_sort(a: int, b: int)
    ensures
        lesser(a, b) <= a && lesser(a, b) <= b,
        a <= greater(a, b) && b <= greater(a, b),
        lesser(a, b) == a || lesser(a, b) == b,
        lesser(a, b) + greater(a, b) == a + b,
{
}

/// A quotient is cut off toward zero: times the divisor it never goes past the number,
/// and what is left is smaller than the divisor.
pub proof fn law_quotient_cuts_toward_zero(n: int, d: int)
    requires
        d > 0,
    ensures
        n >= 0 ==> 0 <= quotient(n, d) && quotient(n, d) * d <= n < quotient(n, d) * d + d,
        n <= 0 ==> quotient(n, d) <= 0 && quotient(n, d) * d - d < n <= quotient(n, d) * d,
{
    let m = if n >= 0 {
        n
    } else {
        -n
    };
    let q = m / d;
    vstd::arithmetic::div_mod::lemma_fundamental_div_mod(m, d);
    vstd::arithmetic::div_mod::lemma_mod_bound(m, d);
    assert(d * q == q * d) by (nonlinear_arith);
    assert((-q) * d == -(q * d)) by (nonlinear_arith);
    assert(q >= 0) by (nonlinear_arith)
        requires
            m >= 0,
            d > 0,
            m == d * q + m % d,
            0 <= m % d < d,
    ;
}

/// A rectangle's extents are what its edges are apart, and stay the same wherever it is.
pub proof fn law_extents_lie_between_the_edges(r: Rect, size: int)
    ensures
        r.left + r.spec_width() == r.right,
        r.top + r.spec_height() == r.bottom,
        r.spans_at_least(size) <==> r.left + size <= r.right && r.top + size <= r.bottom,
        r.measurable() <==> -0x8000_0000 <= r.right - r.left <= 0x7FFF_FFFF && -0x8000_0000
            <= r.bottom - r.top <= 0x7FFF_FFFF,
{
}

/// A coordinate has 32 bits.
pub proof fn law_coordinates_have_32_bits(n: int)
    ensures
        fits(n) <==> -0x8000_0000 <= n <= 0x7FFF_FFFF,
{
}

} // verus!
