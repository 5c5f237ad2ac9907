//! The arithmetic behind the on-screen waveform and markers.
//!
//! Drawing itself is the windowing toolkit's business; what the library
//! owns is the mapping from ratios, window geometry and raw samples to the
//! integer coordinates the draw calls use, recomputed from the current
//! window size on every frame so that a resize takes effect at once.

use crate::ratio::{lemma_scale_mul_div_bounds, Ratio};
use vstd::arithmetic::div_mod::lemma_multiply_divide_lt;
use vstd::math::abs;
use vstd::prelude::*;

verus! {

/// Which loop marker a click or drag grabs.
#[derive(Clone, Copy, Debug, PartialEq, Eq, Structural)]
pub enum Edge {
    Begin,
    End,
}

/// The distance `|a - b|` between two ratios, as the numerator of the
/// difference over the common denominator `a.den * b.den`.
pub open spec fn diff_num(a: Ratio, b: Ratio) -> int {
    abs(a.num * b.den - b.num * a.den) as int
}

/// Whether `r` lies strictly closer to `begin` than to `end`:
/// `|r - begin| < |r - end|`, both sides brought to the common denominator
/// `r.den * begin.den * end.den`.
pub open spec fn closer_to_begin(r: Ratio, begin: Ratio, end: Ratio) -> bool {
    diff_num(r, begin) * end.den < diff_num(r, end) * begin.den
}

/// Picks the loop marker nearer to the pointer ratio `r`. The comparison is
/// strict, so a pointer equally far from both markers grabs the end marker.
pub fn choose_edge(r: Ratio, begin: Ratio, end: Ratio) -> (e: Edge)
    ensures
        e == (if closer_to_begin(r, begin, end) {
            Edge::Begin
        } else {
            Edge::End
        }),
{
    proof {
        lemma_cross_products_fit(r, begin, end);
    }
    let rb1: u128 = (r.num as u128) * (begin.den as u128);
    let rb2: u128 = (begin.num as u128) * (r.den as u128);
    let db: u128 = if rb1 >= rb2 {
        rb1 - rb2
    } else {
        rb2 - rb1
    };
    let re1: u128 = (r.num as u128) * (end.den as u128);
    let re2: u128 = (end.num as u128) * (r.den as u128);
    let de: u128 = if re1 >= re2 {
        re1 - re2
    } else {
        re2 - re1
    };
    if db * (end.den as u128) < de * (begin.den as u128) {
        Edge::Begin
    } else {
        Edge::End
    }
}

/// Every product in the marker comparison fits well inside 128 bits.
proof fn lemma_cross_products_fit(r: Ratio, begin: Ratio, end: Ratio)
    ensures
        r.num * begin.den <= u32::MAX * u32::MAX,
        begin.num * r.den <= u32::MAX * u32::MAX,
        r.num * end.den <= u32::MAX * u32::MAX,
        end.num * r.den <= u32::MAX * u32::MAX,
        diff_num(r, begin) * end.den <= u32::MAX * u32::MAX * u32::MAX,
        diff_num(r, end) * begin.den <= u32::MAX * u32::MAX * u32::MAX,
{
    assert(r.num * begin.den <= u32::MAX * u32::MAX && begin.num * r.den <= u32::MAX * u32::MAX
        && r.num * end.den <= u32::MAX * u32::MAX && end.num * r.den <= u32::MAX * u32::MAX)
        by (nonlinear_arith)
        requires
            r.num <= u32::MAX,
            r.den <= u32::MAX,
            begin.num <= u32::MAX,
            begin.den <= u32::MAX,
            end.num <= u32::MAX,
            end.den <= u32::MAX,
    ;
    assert(diff_num(r, begin) * end.den <= u32::MAX * u32::MAX * u32::MAX) by (nonlinear_arith)
        requires
            0 <= diff_num(r, begin) <= u32::MAX * u32::MAX,
            end.den <= u32::MAX,
    ;
    assert(diff_num(r, end) * begin.den <= u32::MAX * u32::MAX * u32::MAX) by (nonlinear_arith)
        requires
            0 <= diff_num(r, end) <= u32::MAX * u32::MAX,
            begin.den <= u32::MAX,
    ;
}

/// The pixel height of one waveform column: the raw sample scaled into the
/// window height, `floor(raw * height / 255)`; never taller than the
/// window.
pub fn wave_y(raw: u8, height: usize) -> (y: usize)
    ensures
        y == raw * height / 255,
        y <= height,
{
    proof {
        lemma_scale_mul_div_bounds(height as int, raw as int, 255);
        assert((height as int) * (raw as int) == (raw as int) * (height as int))
            by (nonlinear_arith);
    }
    ((raw as u128) * (height as u128) / 255) as usize
}

/// The source sample drawn at pixel column `x` of a window `width` pixels
/// wide: `floor(len * x / width)`, the nearest earlier sample; with
/// `x < width` it is a valid index into the buffer.
pub fn sample_index_for_column(x: usize, width: usize, len: usize) -> (idx: usize)
    requires
        0 < width,
        x < width,
        0 < len,
    ensures
        idx == (len as int) * (x as int) / (width as int),
        idx < len,
{
    proof {
        assert((len as int) * (x as int) < u128::MAX as int && (len as int) * (x as int)
            < (width as int) * (len as int)) by (nonlinear_arith)
            requires
                0 < len <= u64::MAX,
                0 <= x < width <= u64::MAX,
        ;
        lemma_multiply_divide_lt((len as int) * (x as int), width as int, len as int);
        vstd::arithmetic::div_mod::lemma_div_pos_is_pos((len as int) * (x as int), width as int);
    }
    (((len as u128) * (x as u128)) / (width as u128)) as usize
}

} // verus!
