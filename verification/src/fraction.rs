//! Exact scaling of a length by a fraction between zero and one.

use vstd::prelude::*;
use vstd::arithmetic::div_mod::{
    lemma_div_is_ordered, lemma_div_multiples_vanish, lemma_div_pos_is_pos,
};
use vstd::arithmetic::mul::{lemma_mul_inequality, lemma_mul_nonnegative, lemma_mul_upper_bound};

verus! {

/// `value` scaled by `part / whole` and rounded towards zero. Zero stays
/// zero, whatever the fraction.
pub open spec fn toward_zero(value: int, part: int, whole: int) -> int {
    if value > 0 {
        (value * part) / whole
    } else if value < 0 {
        -(((-value) * part) / whole)
    } else {
        0
    }
}

/// Scaling by a fraction between zero and one never grows a value and
/// never turns it to the other side of zero.
pub proof fn lemma_toward_zero_shrinks(value: int, part: int, whole: int)
    requires
        0 <= part <= whole,
        0 < whole,
    ensures
        value >= 0 ==> 0 <= toward_zero(value, part, whole) <= value,
        value <= 0 ==> value <= toward_zero(value, part, whole) <= 0,
{
    let size = if value >= 0 { value } else { -value };
    lemma_mul_nonnegative(size, part);
    lemma_div_pos_is_pos(size * part, whole);
    lemma_mul_inequality(part, whole, size);
    assert(size * part == part * size && size * whole == whole * size) by (nonlinear_arith);
    lemma_div_is_ordered(size * part, size * whole, whole);
    lemma_div_multiples_vanish(size, whole);
}

/// Scales `value` by `part / whole`, rounding towards zero.
pub fn scale_toward_zero(value: i64, part: u64, whole: u64) -> (scaled: i64)
    requires
        part <= whole,
        0 < whole,
        value > i64::MIN,
    ensures
        scaled == toward_zero(value as int, part as int, whole as int),
        value >= 0 ==> 0 <= scaled <= value,
        value <= 0 ==> value <= scaled <= 0,
{
    if value == 0 {
        return 0;
    }
    proof {
        lemma_toward_zero_shrinks(value as int, part as int, whole as int);
    }
    let size: u128 = if value > 0 { value as u128 } else { (-value) as u128 };
    proof {
        lemma_mul_upper_bound(
            size as int,
            0x8000_0000_0000_0000,
            part as int,
            0x1_0000_0000_0000_0000,
        );
        assert(0x8000_0000_0000_0000int * 0x1_0000_0000_0000_0000int < u128::MAX);
    }
    let quotient: u128 = (size * (part as u128)) / (whole as u128);
    if value > 0 {
        quotient as i64
    } else {
        -(quotient as i64)
    }
}

} // verus!
