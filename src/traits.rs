use crate::config::{CpuFeatures, SimdFeatureLevel};
use vstd::prelude::*;
use vstd::std_specs::ops::{AddSpec, MulSpec, SubSpec};

verus! {

/// A scalar type that can take part in vectorised arithmetic: it is copied
/// freely and has ordinary addition, subtraction and multiplication.
pub trait SimdField: Copy + core::ops::Add<Output = Self> + core::ops::Sub<
    Output = Self,
> + core::ops::Mul<Output = Self> {

}

impl<T> SimdField for T where
    T: Copy + core::ops::Add<Output = T> + core::ops::Sub<Output = T> + core::ops::Mul<Output = T>,
 {

}

/// The elementwise binary operators a kernel provides.
#[derive(Clone, Copy, Debug, PartialEq, Eq, Structural)]
pub enum LaneOp {
    Add,
    Sub,
    Mul,
}

/// The scalar operator `op` may be applied to `a` and `b` (for a machine
/// integer: the exact result fits the type).
pub open spec fn lane_defined<T: SimdField>(op: LaneOp, a: T, b: T) -> bool {
    match op {
        LaneOp::Add => a.add_req(b),
        LaneOp::Sub => a.sub_req(b),
        LaneOp::Mul => a.mul_req(b),
    }
}

/// `r` is what the scalar operator `op` gives on `a` and `b`, wherever the
/// scalar type states the meaning of that operator.
pub open spec fn lane_value<T: SimdField>(op: LaneOp, a: T, b: T, r: T) -> bool {
    match op {
        LaneOp::Add => T::obeys_add_spec() ==> r == a.add_spec(b),
        LaneOp::Sub => T::obeys_sub_spec() ==> r == a.sub_spec(b),
        LaneOp::Mul => T::obeys_mul_spec() ==> r == a.mul_spec(b),
    }
}

/// Every pair of lanes that `a` and `b` both hold may be combined by `op`.
pub open spec fn lanes_defined<T: SimdField>(op: LaneOp, a: Seq<T>, b: Seq<T>) -> bool {
    forall|i: int| 0 <= i < a.len() && i < b.len() ==> #[trigger] lane_defined(op, a[i], b[i])
}

/// `r` holds, at every index, the scalar operator applied to that index of `a` and `b`.
pub open spec fn lanewise<T: SimdField>(op: LaneOp, a: Seq<T>, b: Seq<T>, r: Seq<T>) -> bool {
    &&& r.len() == a.len()
    &&& r.len() == b.len()
    &&& forall|i: int| 0 <= i < r.len() ==> #[trigger] lane_value(op, a[i], b[i], r[i])
}

/// Applies the scalar operator `op` to one pair of lanes.
pub fn apply_scalar<T: SimdField>(op: LaneOp, a: T, b: T) -> (r: T)
    requires
        lane_defined(op, a, b),
    ensures
        lane_value(op, a, b, r),
{
    match op {
        LaneOp::Add => a + b,
        LaneOp::Sub => a - b,
        LaneOp::Mul => a * b,
    }
}

/// A scalar type's view of the host's vector support.
pub trait SimdSupport: Sized {
    /// The level this scalar type is processed at on the given host.
    fn simd_feature_level(cpu: &CpuFeatures) -> (r: SimdFeatureLevel)
        ensures
            r == SimdFeatureLevel::spec_detect(*cpu),
    {
        SimdFeatureLevel::detect(cpu)
    }

    /// Whether the given host has a vector kernel for this scalar type.
    fn has_simd_support(cpu: &CpuFeatures) -> (r: bool)
        ensures
            r == SimdFeatureLevel::spec_detect(*cpu).spec_accelerated(),
    {
        let level = Self::simd_feature_level(cpu);
        !matches!(level, SimdFeatureLevel::Scalar)
    }
}

impl<T: SimdField> SimdSupport for T {

}

} // verus!
