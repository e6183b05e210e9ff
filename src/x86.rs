use crate::kernel::{combine_lanes, load_window, store_window, VectorKernel};
use crate::traits::{LaneOp, SimdField};
use vstd::prelude::*;

verus! {

/// One AVX2 register window: 32 lanes.
pub struct Avx2Vector<T>(pub [T; 32]);

impl<T: SimdField> VectorKernel<T> for Avx2Vector<T> {
    open spec fn spec_width() -> nat {
        32
    }

    open spec fn lanes(&self) -> Seq<T> {
        self.0@
    }

    fn load_simd(src: &[T], offset: usize) -> (v: Self) {
        Avx2Vector(load_window(src, offset))
    }

    fn store_simd(&self, dst: &mut Vec<T>, offset: usize) {
        store_window(&self.0, dst, offset)
    }

    fn add_simd(a: &Self, b: &Self) -> (r: Self) {
        Avx2Vector(combine_lanes(LaneOp::Add, &a.0, &b.0))
    }

    fn sub_simd(a: &Self, b: &Self) -> (r: Self) {
        Avx2Vector(combine_lanes(LaneOp::Sub, &a.0, &b.0))
    }

    fn mul_simd(a: &Self, b: &Self) -> (r: Self) {
        Avx2Vector(combine_lanes(LaneOp::Mul, &a.0, &b.0))
    }
}

} // verus!
