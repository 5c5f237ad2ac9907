//! Exact fractional control values in the unit interval.

use vstd::arithmetic::div_mod::{lemma_div_is_ordered, lemma_div_multiples_vanish};
use vstd::arithmetic::mul::lemma_mul_inequality;
use vstd::prelude::*;

verus! {

/// A control value `num / den` in `[0, 1]`, kept as an exact fraction so
/// that scaling a buffer length by it is plain integer arithmetic.
///
/// The interface thread derives such a value from a pointer coordinate and a
/// window width; the playback engine multiplies it by the sample-buffer
/// length to obtain an index.
#[derive(Clone, Copy, Debug, PartialEq, Eq, Structural)]
pub struct Ratio {
    pub num: u32,
    pub den: u32,
}

impl Ratio {
    /// A ratio is well formed when its denominator is positive and its value
    /// does not exceed one.
    pub open spec fn wf(self) -> bool {
        0 < self.den && self.num <= self.den
    }

    /// The index this ratio selects out of `len` slots: `floor(num * len / den)`.
    pub open spec fn scale_spec(self, len: int) -> int {
        self.num * len / self.den as int
    }

    /// Builds `num / den`, rejecting an empty denominator and values above one.
    pub fn new(num: u32, den: u32) -> (r: Option<Ratio>)
        ensures
            r is Some <==> 0 < den && num <= den,
            r is Some ==> r->Some_0 == (Ratio { num, den }),
    {
        if 0 < den && num <= den {
            Some(Ratio { num, den })
        } else {
            None
        }
    }

    /// Scales `len` by this ratio, rounding down. Because the ratio is at
    /// most one, the result never exceeds `len`.
    pub fn scale(self, len: usize) -> (i: usize)
        requires
            self.wf(),
        ensures
            i == self.scale_spec(len as int),
            i <= len,
    {
        proof {
            assert(len <= u64::MAX);
            assert((self.num as int) * (len as int) < u128::MAX as int) by (nonlinear_arith)
                requires
                    0 <= self.num <= u32::MAX,
                    0 <= len <= u64::MAX,
            ;
            lemma_scale_mul_div_bounds(len as int, self.num as int, self.den as int);
            assert((len as int) * (self.num as int) == (self.num as int) * (len as int))
                by (nonlinear_arith);
        }
        let wide: u128 = (self.num as u128) * (len as u128) / (self.den as u128);
        wide as usize
    }
}

/// With `num <= den`, a value scaled by `num / den` (rounding down) stays
/// between zero and the value itself.
pub proof fn lemma_scale_mul_div_bounds(x: int, num: int, den: int)
    requires
        0 < den,
        0 <= num <= den,
        0 <= x,
    ensures
        0 <= x * num / den <= x,
{
    lemma_mul_inequality(num, den, x);
    assert(num * x == x * num && den * x == x * den) by (nonlinear_arith);
    lemma_div_is_ordered(x * num, x * den, den);
    lemma_div_multiples_vanish(x, den);
    assert(x * num >= 0) by (nonlinear_arith)
        requires
            num >= 0,
            x >= 0,
    ;
    assert(x * num / den >= 0) by {
        vstd::arithmetic::div_mod::lemma_div_pos_is_pos(x * num, den);
    }
}

} // verus!
