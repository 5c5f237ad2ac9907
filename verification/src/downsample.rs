//! One-time reduction of the sample buffer for drawing.

use crate::view::sample_index_for_column;
use vstd::prelude::*;

verus! {

/// What downsampling produces: `target_len` samples, the `i`-th taken from
/// the source at `floor(src_len * i / target_len)`, the nearest earlier
/// source sample.
pub open spec fn downsample_spec(src: Seq<u8>, target_len: int) -> Seq<u8> {
    Seq::new(target_len as nat, |i: int| src[src.len() * i / target_len])
}

/// Law: downsampling is deterministic. The output is a pure function of the
/// source buffer and the target length alone, so running it again on the
/// same inputs yields an identical buffer.
pub proof fn lemma_downsample_deterministic(
    src1: Seq<u8>,
    target1: int,
    src2: Seq<u8>,
    target2: int,
)
    requires
        src1 == src2,
        target1 == target2,
    ensures
        downsample_spec(src1, target1) == downsample_spec(src2, target2),
{
}

/// Reduces `src` to a buffer of `target_len` samples for drawing, taking
/// for each output slot the nearest earlier source sample. Fails only on an
/// invalid request: an empty source or an empty target.
pub fn downsample(src: &Vec<u8>, target_len: usize) -> (r: Option<Vec<u8>>)
    ensures
        r is Some <==> src@.len() > 0 && target_len > 0,
        r is Some ==> r->Some_0@ == downsample_spec(src@, target_len as int),
{
    if src.len() == 0 || target_len == 0 {
        return None;
    }
    let mut out: Vec<u8> = Vec::new();
    let mut i: usize = 0;
    while i < target_len
        invariant
            0 < target_len,
            0 < src@.len(),
            i <= target_len,
            out@.len() == i,
            forall|j: int| 0 <= j < i ==> out@[j] == downsample_spec(src@, target_len as int)[j],
        decreases target_len - i,
    {
        let idx: usize = sample_index_for_column(i, target_len, src.len());
        out.push(src[idx]);
        i = i + 1;
    }
    proof {
        assert(out@ =~= downsample_spec(src@, target_len as int));
    }
    Some(out)
}

} // verus!
