use crate::traits::{apply_scalar, lane_defined, lane_value, lanes_defined, lanewise, LaneOp, SimdField};
use vstd::prelude::*;

verus! {

/// A register-sized window of lanes, with the primitive operations of one
/// instruction-set extension. Every operation works lane by lane and gives,
/// on each lane, exactly what the scalar operator gives.
pub trait VectorKernel<T: SimdField>: Sized {
    /// Lanes held by one register.
    spec fn spec_width() -> nat;

    /// The scalars held in the register, lowest lane first.
    spec fn lanes(&self) -> Seq<T>;

    /// Reads `width` contiguous scalars starting at `offset`.
    fn load_simd(src: &[T], offset: usize) -> (v: Self)
        requires
            offset + Self::spec_width() <= src@.len(),
        ensures
            v.lanes() == src@.subrange(offset as int, offset + Self::spec_width()),
    ;

    /// Writes the register's lanes to `dst[offset .. offset + width]` and
    /// leaves every other element as it was.
    fn store_simd(&self, dst: &mut Vec<T>, offset: usize)
        requires
            self.lanes().len() == Self::spec_width(),
            offset + Self::spec_width() <= old(dst)@.len(),
        ensures
            window_stored(old(dst)@, final(dst)@, offset as int, self.lanes()),
    ;

    /// Lane-wise addition.
    fn add_simd(a: &Self, b: &Self) -> (r: Self)
        requires
            a.lanes().len() == Self::spec_width(),
            b.lanes().len() == Self::spec_width(),
            lanes_defined(LaneOp::Add, a.lanes(), b.lanes()),
        ensures
            lanewise(LaneOp::Add, a.lanes(), b.lanes(), r.lanes()),
    ;

    /// Lane-wise subtraction.
    fn sub_simd(a: &Self, b: &Self) -> (r: Self)
        requires
            a.lanes().len() == Self::spec_width(),
            b.lanes().len() == Self::spec_width(),
            lanes_defined(LaneOp::Sub, a.lanes(), b.lanes()),
        ensures
            lanewise(LaneOp::Sub, a.lanes(), b.lanes(), r.lanes()),
    ;

    /// Lane-wise multiplication.
    fn mul_simd(a: &Self, b: &Self) -> (r: Self)
        requires
            a.lanes().len() == Self::spec_width(),
            b.lanes().len() == Self::spec_width(),
            lanes_defined(LaneOp::Mul, a.lanes(), b.lanes()),
        ensures
            lanewise(LaneOp::Mul, a.lanes(), b.lanes(), r.lanes()),
    ;
}

/// `after` is `before` with `lanes` written at `offset`, and nothing else changed.
pub open spec fn window_stored<T>(before: Seq<T>, after: Seq<T>, offset: int, lanes: Seq<T>) -> bool {
    &&& after.len() == before.len()
    &&& forall|j: int| 0 <= j < lanes.len() ==> #[trigger] after[offset + j] == lanes[j]
    &&& forall|j: int|
        0 <= j < before.len() && !(offset <= j < offset + lanes.len()) ==> #[trigger] after[j]
            == before[j]
}

/// Copies `src[offset .. offset + N]` into a register-sized array.
pub fn load_window<T: SimdField, const N: usize>(src: &[T], offset: usize) -> (r: [T; N])
    requires
        N >= 1,
        offset + N <= src@.len(),
    ensures
        r@ == src@.subrange(offset as int, offset + N),
{
    let len = src.len();
    let mut r: [T; N] = [src[offset]; N];
    let mut i: usize = 0;
    while i < N
        invariant
            i <= N,
            offset + N <= src@.len(),
            len == src@.len(),
            r@.len() == N,
            forall|j: int| 0 <= j < i ==> r@[j] == src@[offset + j],
        decreases N - i,
    {
        r[i] = src[offset + i];
        i += 1;
    }
    assert(r@ =~= src@.subrange(offset as int, offset + N));
    r
}

/// Writes the array's lanes to `dst[offset .. offset + N]`.
pub fn store_window<T: SimdField, const N: usize>(lanes: &[T; N], dst: &mut Vec<T>, offset: usize)
    requires
        offset + N <= old(dst)@.len(),
    ensures
        window_stored(old(dst)@, final(dst)@, offset as int, lanes@),
{
    let len = dst.len();
    let mut i: usize = 0;
    while i < N
        invariant
            i <= N,
            offset + N <= dst@.len(),
            len == dst@.len(),
            lanes@.len() == N,
            dst@.len() == old(dst)@.len(),
            forall|j: int| 0 <= j < i ==> #[trigger] dst@[offset + j] == lanes@[j],
            forall|j: int|
                0 <= j < dst@.len() && !(offset <= j < offset + i) ==> #[trigger] dst@[j]
                    == old(dst)@[j],
        decreases N - i,
    {
        dst.set(offset + i, lanes[i]);
        i += 1;
    }
}

/// Applies `op` to each pair of lanes of two register-sized arrays.
pub fn combine_lanes<T: SimdField, const N: usize>(op: LaneOp, a: &[T; N], b: &[T; N]) -> (r: [T; N])
    requires
        N >= 1,
        lanes_defined(op, a@, b@),
    ensures
        lanewise(op, a@, b@, r@),
{
    let mut r: [T; N] = [a[0]; N];
    let mut i: usize = 0;
    while i < N
        invariant
            i <= N,
            a@.len() == N,
            b@.len() == N,
            r@.len() == N,
            lanes_defined(op, a@, b@),
            forall|j: int| 0 <= j < i ==> #[trigger] lane_value(op, a@[j], b@[j], r@[j]),
        decreases N - i,
    {
        assert(lane_defined(op, a@[i as int], b@[i as int]));
        r[i] = apply_scalar(op, a[i], b[i]);
        i += 1;
    }
    r
}

} // verus!
