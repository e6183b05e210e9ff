use crate::arm::NeonVector;
use crate::config::{CpuFeatures, SimdFeatureLevel};
use crate::kernel::VectorKernel;
use crate::traits::{apply_scalar, lane_defined, lane_value, lanes_defined, lanewise, LaneOp, SimdField};
use crate::x86::Avx2Vector;
use vstd::arithmetic::div_mod::{lemma_fundamental_div_mod, lemma_fundamental_div_mod_converse};
use vstd::prelude::*;
use vstd::std_specs::ops::AddSpec;
use vstd::slice::slice_to_vec;

verus! {

/// Relies on num_traits::Euclid::div_rem_euclid for `usize`: the Euclidean
/// quotient and remainder, which for unsigned operands are `/` and `%`
/// (it panics on a zero divisor, hence the `requires`).
#[verifier::external_body]
fn div_rem_euclid(len: usize, width: usize) -> (r: (usize, usize))
    requires
        width > 0,
    ensures
        r.0 == len / width,
        r.1 == len % width,
{
    num_traits::Euclid::div_rem_euclid(&len, &width)
}

/// Number of whole register windows in a buffer of `len` elements.
pub open spec fn spec_chunks(len: nat, width: nat) -> nat
    recommends
        width > 0,
{
    len / width
}

/// Number of trailing elements left to scalar arithmetic.
pub open spec fn spec_remainder(len: nat, width: nat) -> nat
    recommends
        width > 0,
{
    len % width
}

/// The index written by lane `lane` of chunk `chunk`.
pub open spec fn chunk_index(chunk: nat, lane: nat, width: nat) -> nat {
    chunk * width + lane
}

/// Splitting a buffer of `len` elements at a detected level's width into whole
/// windows and a remainder covers every index exactly once: the counts add up
/// to `len`, the windows lie below the remainder, no two (chunk, lane) slots
/// address the same index, and every index is either one window's lane or
/// one remainder element.
pub proof fn lemma_chunk_partition(len: nat, level: SimdFeatureLevel)
    ensures
        ({
            let w = level.spec_vector_width();
            let chunks = spec_chunks(len, w);
            let rem = spec_remainder(len, w);
            &&& chunks * w + rem == len
            &&& rem < w
            &&& forall|c: nat, l: nat|
                c < chunks && l < w ==> #[trigger] chunk_index(c, l, w) < chunks * w
            &&& forall|c1: nat, l1: nat, c2: nat, l2: nat|
                l1 < w && l2 < w && #[trigger] chunk_index(c1, l1, w) == #[trigger] chunk_index(
                    c2,
                    l2,
                    w,
                ) ==> c1 == c2 && l1 == l2
            &&& forall|i: nat|
                i < chunks * w ==> i / w < chunks && lane_of(i, w) < w && #[trigger] chunk_index(
                    i / w,
                    lane_of(i, w),
                    w,
                ) == i
            &&& forall|i: nat| chunks * w <= i < len ==> #[trigger] (i - chunks * w) < rem
        }),
{
    let w = level.spec_vector_width();
    let chunks = spec_chunks(len, w);
    let rem = spec_remainder(len, w);
    lemma_fundamental_div_mod(len as int, w as int);
    assert(chunks * w + rem == len) by (nonlinear_arith)
        requires
            len == w * (len as int / w as int) + len as int % w as int,
            chunks == len as int / w as int,
            rem == len as int % w as int,
    ;
    assert forall|c: nat, l: nat| c < chunks && l < w implies #[trigger] chunk_index(c, l, w) < chunks
        * w by {
        assert(c * w + l < chunks * w) by (nonlinear_arith)
            requires
                c < chunks,
                l < w,
        ;
    }
    assert forall|c1: nat, l1: nat, c2: nat, l2: nat|
        l1 < w && l2 < w && #[trigger] chunk_index(c1, l1, w) == #[trigger] chunk_index(
            c2,
            l2,
            w,
        ) implies c1 == c2 && l1 == l2 by {
        let x = (c1 * w + l1) as int;
        lemma_fundamental_div_mod_converse(x, w as int, c1 as int, l1 as int);
        lemma_fundamental_div_mod_converse(x, w as int, c2 as int, l2 as int);
    }
    assert forall|i: nat| i < chunks * w implies i / w < chunks && lane_of(i, w) < w
        && #[trigger] chunk_index(i / w, lane_of(i, w), w) == i by {
        lemma_fundamental_div_mod(i as int, w as int);
        assert(i / w < chunks) by (nonlinear_arith)
            requires
                i < chunks * w,
                i == w * (i / w) + i % w,
                i % w >= 0,
                w > 0,
        ;
        assert((i / w) * w + i % w == i) by (nonlinear_arith)
            requires
                i == w * (i / w) + i % w,
        ;
    }
}

/// The lane of index `i` within its window.
pub open spec fn lane_of(i: nat, width: nat) -> nat {
    i % width
}


/// Applies the scalar operator to `a[start ..]` and `b[start ..]`, writing
/// each result to the same index of `out`; indices below `start` are kept.
fn scalar_range<T: SimdField>(
    op: LaneOp,
    a: &Vec<T>,
    b: &Vec<T>,
    out: &mut Vec<T>,
    start: usize,
    Ghost(writes): Ghost<Seq<int>>,
) -> (w: Ghost<Seq<int>>)
    requires
        a@.len() == b@.len(),
        old(out)@.len() == a@.len(),
        start <= a@.len(),
        writes.len() == a@.len(),
        lanes_defined(op, a@, b@),
    ensures
        final(out)@.len() == a@.len(),
        w@.len() == a@.len(),
        forall|i: int| 0 <= i < start ==> #[trigger] final(out)@[i] == old(out)@[i],
        forall|i: int|
            start <= i < a@.len() ==> lane_value(op, a@[i], b@[i], #[trigger] final(out)@[i]),
        forall|i: int| 0 <= i < start ==> #[trigger] w@[i] == writes[i],
        forall|i: int| start <= i < a@.len() ==> #[trigger] w@[i] == writes[i] + 1,
{
    let n = a.len();
    let ghost mut written = writes;
    let mut i: usize = start;
    while i < n
        invariant
            start <= i <= n,
            n == a@.len(),
            a@.len() == b@.len(),
            out@.len() == n,
            old(out)@.len() == n,
            written.len() == n,
            writes.len() == n,
            lanes_defined(op, a@, b@),
            forall|k: int| 0 <= k < start ==> #[trigger] out@[k] == old(out)@[k],
            forall|k: int| start <= k < i ==> lane_value(op, a@[k], b@[k], #[trigger] out@[k]),
            forall|k: int| 0 <= k < start ==> #[trigger] written[k] == writes[k],
            forall|k: int| start <= k < i ==> #[trigger] written[k] == writes[k] + 1,
            forall|k: int| i <= k < n ==> #[trigger] written[k] == writes[k],
        decreases n - i,
    {
        assert(lane_defined(op, a@[i as int], b@[i as int]));
        let v = apply_scalar(op, a[i], b[i]);
        out.set(i, v);
        proof {
            written = written.update(i as int, written[i as int] + 1);
        }
        i += 1;
    }
    Ghost(written)
}

/// Runs `op` over two equal-length buffers with kernel `K`: whole windows go
/// through the kernel, whose width is the level's, the trailing `len % width` elements through scalar
/// arithmetic. The ghost result counts the writes made to each index of the
/// output: every one is written exactly once.
fn run_kernel<T: SimdField, K: VectorKernel<T>>(
    op: LaneOp,
    level: SimdFeatureLevel,
    a: &Vec<T>,
    b: &Vec<T>,
) -> (r: (Vec<T>, Ghost<Seq<int>>))
    requires
        K::spec_width() == level.spec_vector_width(),
        a@.len() == b@.len(),
        lanes_defined(op, a@, b@),
    ensures
        lanewise(op, a@, b@, r.0@),
        r.1@.len() == a@.len(),
        forall|i: int| 0 <= i < a@.len() ==> #[trigger] r.1@[i] == 1,
{
    let n = a.len();
    let width = level.vector_width();
    let (chunks, remainder) = div_rem_euclid(n, width);
    proof {
        lemma_fundamental_div_mod(n as int, width as int);
        assert(chunks * width + remainder == n) by (nonlinear_arith)
            requires
                n == width * (n as int / width as int) + n as int % width as int,
                chunks == n as int / width as int,
                remainder == n as int % width as int,
        ;
    }
    // Fully initialised before the first write.
    let mut out = slice_to_vec(a.as_slice());
    let ghost mut written: Seq<int> = Seq::new(n as nat, |k: int| 0);
    let mut c: usize = 0;
    let mut done: usize = 0;
    while c < chunks
        invariant
            c <= chunks,
            n == a@.len(),
            a@.len() == b@.len(),
            out@.len() == n,
            written.len() == n,
            width as nat == K::spec_width(),
            width >= 1,
            chunks * width + remainder == n,
            done == c * width,
            done <= chunks * width,
            lanes_defined(op, a@, b@),
            forall|k: int| 0 <= k < done ==> lane_value(op, a@[k], b@[k], #[trigger] out@[k]),
            forall|k: int| 0 <= k < done ==> #[trigger] written[k] == 1,
            forall|k: int| done <= k < n ==> #[trigger] written[k] == 0,
        decreases chunks - c,
    {
        proof {
            assert(done + width <= chunks * width) by (nonlinear_arith)
                requires
                    done == c * width,
                    c < chunks,
            ;
        }
        let offset = done;
        let va = K::load_simd(a.as_slice(), offset);
        let vb = K::load_simd(b.as_slice(), offset);
        proof {
            assert forall|j: int| 0 <= j < va.lanes().len() && j < vb.lanes().len() implies #[trigger]
                lane_defined(op, va.lanes()[j], vb.lanes()[j]) by {
                assert(lane_defined(op, a@[offset + j], b@[offset + j]));
            }
        }
        let vr = match op {
            LaneOp::Add => K::add_simd(&va, &vb),
            LaneOp::Sub => K::sub_simd(&va, &vb),
            LaneOp::Mul => K::mul_simd(&va, &vb),
        };
        let ghost before = out@;
        vr.store_simd(&mut out, offset);
        proof {
            assert forall|k: int| 0 <= k < done + width implies lane_value(
                op,
                a@[k],
                b@[k],
                #[trigger] out@[k],
            ) by {
                if k >= offset {
                    let j = k - offset;
                    assert(out@[offset + j] == vr.lanes()[j]);
                    assert(lane_value(op, va.lanes()[j], vb.lanes()[j], vr.lanes()[j]));
                } else {
                    assert(out@[k] == before[k]);
                }
            }
            written = Seq::new(
                n as nat,
                |k: int|
                    if offset <= k < offset + width {
                        written[k] + 1
                    } else {
                        written[k]
                    },
            );
            assert((c + 1) * width == done + width) by (nonlinear_arith)
                requires
                    done == c * width,
            ;
        }
        c += 1;
        done = done + width;
    }
    let start = done;
    let ghost kernel_out = out@;
    let w = scalar_range(op, a, b, &mut out, start, Ghost(written));
    proof {
        assert forall|k: int| 0 <= k < n implies lane_value(op, a@[k], b@[k], #[trigger] out@[k])
            by {
            if k < start {
                assert(out@[k] == kernel_out[k]);
            }
        }
        assert forall|i: int| 0 <= i < n implies #[trigger] w@[i] == 1 by {
            if i < start {
                assert(w@[i] == written[i]);
            } else {
                assert(w@[i] == written[i] + 1);
            }
        }
    }
    (out, w)
}


/// Why an elementwise operation was refused.
#[derive(Clone, Copy, Debug, PartialEq, Eq, Structural)]
pub enum SimdError {
    /// The operands hold different numbers of elements.
    LengthMismatch { left: usize, right: usize },
}

/// An owned buffer of scalars together with the feature level detected when
/// it was built. It is never changed in place: each operation gives a new one.
pub struct SimdVector<T> {
    data: Vec<T>,
    simd_level: SimdFeatureLevel,
}

impl<T> View for SimdVector<T> {
    type V = Seq<T>;

    closed spec fn view(&self) -> Seq<T> {
        self.data@
    }
}

/// The outcome of an elementwise operation `op` on `a` and `b`: a new vector
/// holding the scalar operator's result at every index, at `a`'s level, when
/// the lengths agree; the length mismatch, with both lengths, otherwise.
pub open spec fn binary_outcome<T: SimdField>(
    op: LaneOp,
    a: SimdVector<T>,
    b: SimdVector<T>,
    r: Result<SimdVector<T>, SimdError>,
) -> bool {
    match r {
        Ok(v) => {
            &&& a@.len() == b@.len()
            &&& lanewise(op, a@, b@, v@)
            &&& v.spec_level() == a.spec_level()
        },
        Err(e) => {
            &&& a@.len() != b@.len()
            &&& e == (SimdError::LengthMismatch { left: a@.len() as usize, right: b@.len() as usize })
        },
    }
}

/// Routes `op` through the kernel of `level`, or through scalar arithmetic
/// over the whole length where the level has no kernel.
fn dispatch<T: SimdField>(op: LaneOp, level: SimdFeatureLevel, a: &Vec<T>, b: &Vec<T>) -> (r: Vec<T>)
    requires
        a@.len() == b@.len(),
        lanes_defined(op, a@, b@),
    ensures
        lanewise(op, a@, b@, r@),
{
    match level {
        SimdFeatureLevel::Scalar => {
            let mut out = slice_to_vec(a.as_slice());
            let _ = scalar_range(op, a, b, &mut out, 0, Ghost(Seq::new(a@.len(), |k: int| 0)));
            out
        },
        SimdFeatureLevel::Avx2 => run_kernel::<T, Avx2Vector<T>>(op, level, a, b).0,
        SimdFeatureLevel::Neon => run_kernel::<T, NeonVector<T>>(op, level, a, b).0,
    }
}

impl<T: Copy> SimdVector<T> {
    /// The feature level recorded when the buffer was built.
    pub closed spec fn spec_level(&self) -> SimdFeatureLevel {
        self.simd_level
    }

    /// Copies `data` into an owned buffer and records the level detected for `cpu`.
    pub fn new(data: &[T], cpu: &CpuFeatures) -> (r: Self)
        ensures
            r@ == data@,
            r.spec_level() == SimdFeatureLevel::spec_detect(*cpu),
    {
        SimdVector { data: slice_to_vec(data), simd_level: SimdFeatureLevel::detect(cpu) }
    }

    /// The whole buffer, read-only.
    pub fn as_slice(&self) -> (r: &[T])
        ensures
            r@ == self@,
    {
        self.data.as_slice()
    }

    pub fn len(&self) -> (r: usize)
        ensures
            r == self@.len(),
    {
        self.data.len()
    }

    pub fn is_empty(&self) -> (r: bool)
        ensures
            r == (self@.len() == 0),
    {
        self.data.len() == 0
    }

    /// The element at `index`, or `None` past the end.
    pub fn get(&self, index: usize) -> (r: Option<&T>)
        ensures
            index < self@.len() ==> r == Some(&self@[index as int]),
            index >= self@.len() ==> r.is_none(),
    {
        if index < self.data.len() {
            Some(&self.data[index])
        } else {
            None
        }
    }

    /// The feature level this vector's operations dispatch on.
    pub fn level(&self) -> (r: SimdFeatureLevel)
        ensures
            r == self.spec_level(),
    {
        self.simd_level
    }
}

impl<T: SimdField> SimdVector<T> {
    fn combine(&self, op: LaneOp, other: &Self) -> (r: Result<Self, SimdError>)
        requires
            lanes_defined(op, self@, other@),
        ensures
            binary_outcome(op, *self, *other, r),
    {
        if self.data.len() != other.data.len() {
            return Err(SimdError::LengthMismatch { left: self.data.len(), right: other.data.len() });
        }
        let data = dispatch(op, self.simd_level, &self.data, &other.data);
        Ok(SimdVector { data, simd_level: self.simd_level })
    }

    /// Elementwise sum; refused when the lengths differ.
    pub fn add(&self, other: &Self) -> (r: Result<Self, SimdError>)
        requires
            lanes_defined(LaneOp::Add, self@, other@),
        ensures
            binary_outcome(LaneOp::Add, *self, *other, r),
    {
        self.combine(LaneOp::Add, other)
    }

    /// Elementwise difference; refused when the lengths differ.
    pub fn sub(&self, other: &Self) -> (r: Result<Self, SimdError>)
        requires
            lanes_defined(LaneOp::Sub, self@, other@),
        ensures
            binary_outcome(LaneOp::Sub, *self, *other, r),
    {
        self.combine(LaneOp::Sub, other)
    }

    /// Elementwise product; refused when the lengths differ.
    pub fn mul(&self, other: &Self) -> (r: Result<Self, SimdError>)
        requires
            lanes_defined(LaneOp::Mul, self@, other@),
        ensures
            binary_outcome(LaneOp::Mul, *self, *other, r),
    {
        self.combine(LaneOp::Mul, other)
    }
}


/// Adding two vectors built from equal-length sequences succeeds and holds,
/// at every index, the scalar sum of the two inputs at that index, whatever
/// level either vector was built at.
pub proof fn lemma_add_of_new<T: SimdField>(
    a: Seq<T>,
    b: Seq<T>,
    va: SimdVector<T>,
    vb: SimdVector<T>,
    r: Result<SimdVector<T>, SimdError>,
)
    requires
        a.len() == b.len(),
        va@ == a,
        vb@ == b,
        binary_outcome(LaneOp::Add, va, vb, r),
    ensures
        r is Ok,
        r->Ok_0@.len() == a.len(),
        T::obeys_add_spec() ==> forall|i: int|
            0 <= i < a.len() ==> #[trigger] r->Ok_0@[i] == a[i].add_spec(b[i]),
{
    let v = r->Ok_0;
    if T::obeys_add_spec() {
        assert forall|i: int| 0 <= i < a.len() implies #[trigger] v@[i] == a[i].add_spec(b[i]) by {
            assert(lane_value(LaneOp::Add, a[i], b[i], v@[i]));
        }
    }
}

/// The level only decides how the work is split: on a scalar type that states
/// its addition, two sums of the same data agree element for element, the one
/// computed by a kernel and the one by scalar arithmetic alike.
pub proof fn lemma_add_level_independent<T: SimdField>(
    a1: SimdVector<T>,
    b1: SimdVector<T>,
    r1: Result<SimdVector<T>, SimdError>,
    a2: SimdVector<T>,
    b2: SimdVector<T>,
    r2: Result<SimdVector<T>, SimdError>,
)
    requires
        T::obeys_add_spec(),
        a1@ == a2@,
        b1@ == b2@,
        binary_outcome(LaneOp::Add, a1, b1, r1),
        binary_outcome(LaneOp::Add, a2, b2, r2),
    ensures
        r1 is Ok <==> r2 is Ok,
        r1 is Ok ==> r1->Ok_0@ == r2->Ok_0@,
        r1 is Err ==> r1 == r2,
{
    if r1 is Ok {
        let v1 = r1->Ok_0;
        let v2 = r2->Ok_0;
        assert forall|i: int| 0 <= i < v1@.len() implies v1@[i] == v2@[i] by {
            assert(lane_value(LaneOp::Add, a1@[i], b1@[i], v1@[i]));
            assert(lane_value(LaneOp::Add, a2@[i], b2@[i], v2@[i]));
        }
        assert(v1@ =~= v2@);
    }
}

} // verus!
