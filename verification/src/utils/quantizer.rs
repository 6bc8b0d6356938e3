use vstd::prelude::*;

use vstd::array::array_fill_for_copy_types;

use crate::traits::{FiniteFloat, HasQuantizationMethods};

verus! {

/// The index the axis `(a, step)` assigns to `x` under the nearest
/// policy: `round((x - a) / step)` truncated to a count, and
/// unconditionally `0` on a degenerate (zero step) axis.
pub open spec fn axis_quantize<T: FiniteFloat>(a: T, step: T, x: T) -> usize {
    if step.spec_is_zero() {
        0
    } else {
        x.spec_sub(a).spec_div(step).spec_round().spec_to_usize()
    }
}

/// The index the axis `(a, step)` assigns to `x` under the truncating
/// policy: `(x - a) / step` truncated toward zero, and unconditionally
/// `0` on a degenerate axis.
pub open spec fn axis_quantize_ieee754<T: FiniteFloat>(a: T, step: T, x: T) -> usize {
    if step.spec_is_zero() {
        0
    } else {
        x.spec_sub(a).spec_div(step).spec_round_ieee754()
    }
}

/// The scalar the axis `(a, step)` maps the index `n` back to:
/// `a + n * step`.
pub open spec fn axis_dequantize<T: FiniteFloat>(a: T, step: T, n: usize) -> T {
    a.spec_add(T::spec_from_usize(n).spec_mul(step))
}

/// When `x` may be quantized on the axis `(a, step)`.
pub open spec fn axis_can_quantize<T: FiniteFloat>(a: T, step: T, x: T) -> bool {
    &&& x.wf()
    &&& x.can_sub(a)
    &&& (!step.spec_is_zero() ==> x.spec_sub(a).can_div(step))
}

/// When the index `n` may be dequantized on the axis `(a, step)`.
pub open spec fn axis_can_dequantize<T: FiniteFloat>(a: T, step: T, n: usize) -> bool {
    &&& T::can_from_usize(n)
    &&& T::spec_from_usize(n).can_mul(step)
    &&& a.can_add(T::spec_from_usize(n).spec_mul(step))
}

/// The step size a level count determines: `(b - a) / (n - 1)`, and the
/// scalar zero when fewer than two levels leave nothing to divide by.
pub open spec fn spec_with_n_step<T: FiniteFloat>(a: T, b: T, n: usize) -> T {
    if n <= 1 {
        T::spec_from_usize(0)
    } else {
        b.spec_sub(a).spec_div(T::spec_from_usize((n - 1) as usize))
    }
}

/// When an axis may be constructed from the level count `n`.
pub open spec fn can_with_n<T: FiniteFloat>(a: T, b: T, n: usize) -> bool {
    &&& a.wf()
    &&& b.wf()
    &&& T::can_from_usize(0)
    &&& b.can_sub(a)
    &&& (n >= 2 ==> T::can_from_usize((n - 1) as usize) && b.spec_sub(a).can_div(
        T::spec_from_usize((n - 1) as usize),
    ))
}

/// The level count a step size determines: `round((b - a) / step) + 1`.
pub open spec fn spec_step_count<T: FiniteFloat>(a: T, b: T, step: T) -> int {
    b.spec_sub(a).spec_div(step).spec_round().spec_to_usize() + 1
}

/// When an axis may be constructed from the step size `step`.
pub open spec fn can_with_step_size<T: FiniteFloat>(a: T, b: T, step: T) -> bool {
    &&& a.wf()
    &&& b.wf()
    &&& step.wf()
    &&& T::can_from_usize(0)
    &&& b.can_sub(a)
    &&& b.spec_sub(a).can_div(step)
    &&& b.spec_sub(a).spec_div(step).spec_round().spec_to_usize() < usize::MAX
}

/// A `DIM`-dimensional linear quantizer: one independent axis per
/// dimension, each mapping the continuous range `[a[i], b[i]]` onto the
/// grid indices `0 .. n_levels[i]` with distance `step_size[i]` between
/// adjacent levels.
///
/// The struct is a plain immutable value; all behaviour is in its
/// [`HasQuantizationMethods`] implementation.
#[derive(Debug, Clone, Copy)]
pub struct Quantizer<T: FiniteFloat, const DIM: usize> {
    /// Per-axis lower bounds.
    pub a: [T; DIM],
    /// Per-axis upper bounds.
    pub b: [T; DIM],
    /// Per-axis count of discrete levels, both endpoints included.
    pub n_levels: [usize; DIM],
    /// Per-axis distance between adjacent levels.
    pub step_size: [T; DIM],
}

impl<T: FiniteFloat, const DIM: usize> Quantizer<T, DIM> {
    /// Construct each axis from a level count: `step_size[i]` becomes
    /// `(b[i] - a[i]) / (n_levels[i] - 1)`, with a zero step (never a
    /// division by zero) when an axis has fewer than two levels.
    pub fn with_n(a: [T; DIM], b: [T; DIM], n_levels: [usize; DIM]) -> (r: Self)
        requires
            T::can_from_usize(0),
            forall|i: int| 0 <= i < DIM ==> #[trigger] can_with_n(a[i], b[i], n_levels[i]),
        ensures
            r.a == a,
            r.b == b,
            r.n_levels == n_levels,
            forall|i: int|
                0 <= i < DIM ==> #[trigger] r.step_size[i] == spec_with_n_step(
                    a[i],
                    b[i],
                    n_levels[i],
                ),
            r.q_wf(),
    {
        let mut step_size: [T; DIM] = array_fill_for_copy_types::<T, DIM>(T::from_usize(0));
        let mut i: usize = 0;
        while i < DIM
            invariant
                0 <= i <= DIM,
                forall|j: int| 0 <= j < DIM ==> #[trigger] can_with_n(a[j], b[j], n_levels[j]),
                forall|j: int| 0 <= j < DIM ==> (#[trigger] step_size[j]).wf(),
                forall|j: int| i <= j < DIM ==> #[trigger] step_size[j] == T::spec_from_usize(0),
                forall|j: int|
                    0 <= j < i ==> #[trigger] step_size[j] == spec_with_n_step(
                        a[j],
                        b[j],
                        n_levels[j],
                    ),
            decreases DIM - i,
        {
            assert(can_with_n(a[i as int], b[i as int], n_levels[i as int]));
            if n_levels[i] >= 2 {
                step_size[i] = b[i].sub(a[i]).div(T::from_usize(n_levels[i] - 1));
            }
            i += 1;
        }
        proof {
            assert forall|j: int| 0 <= j < DIM implies (#[trigger] a[j]).wf() by {
                assert(can_with_n(a[j], b[j], n_levels[j]));
            }
            assert forall|j: int| 0 <= j < DIM implies (#[trigger] b[j]).wf() by {
                assert(can_with_n(a[j], b[j], n_levels[j]));
            }
        }
        Quantizer { a, b, n_levels, step_size }
    }

    /// Construct each axis from an explicit step size; the level count is
    /// derived as `round((b[i] - a[i]) / step_size[i]) + 1`.  A step that
    /// does not evenly divide the range is accepted: the last level then
    /// falls short of `b[i]`.
    pub fn with_step_size(a: [T; DIM], b: [T; DIM], step_size: [T; DIM]) -> (r: Self)
        requires
            T::can_from_usize(0),
            forall|i: int| 0 <= i < DIM ==> #[trigger] can_with_step_size(a[i], b[i], step_size[i]),
        ensures
            r.a == a,
            r.b == b,
            r.step_size == step_size,
            forall|i: int|
                0 <= i < DIM ==> #[trigger] r.n_levels[i] == spec_step_count(
                    a[i],
                    b[i],
                    step_size[i],
                ),
            r.q_wf(),
    {
        let mut n_levels: [usize; DIM] = array_fill_for_copy_types::<usize, DIM>(0);
        let mut i: usize = 0;
        while i < DIM
            invariant
                0 <= i <= DIM,
                forall|j: int|
                    0 <= j < DIM ==> #[trigger] can_with_step_size(a[j], b[j], step_size[j]),
                forall|j: int|
                    0 <= j < i ==> #[trigger] n_levels[j] == spec_step_count(
                        a[j],
                        b[j],
                        step_size[j],
                    ),
            decreases DIM - i,
        {
            assert(can_with_step_size(a[i as int], b[i as int], step_size[i as int]));
            n_levels[i] = b[i].sub(a[i]).div(step_size[i]).round().to_usize() + 1;
            i += 1;
        }
        proof {
            assert forall|j: int| 0 <= j < DIM implies (#[trigger] a[j]).wf() by {
                assert(can_with_step_size(a[j], b[j], step_size[j]));
            }
            assert forall|j: int| 0 <= j < DIM implies (#[trigger] b[j]).wf() by {
                assert(can_with_step_size(a[j], b[j], step_size[j]));
            }
            assert forall|j: int| 0 <= j < DIM implies (#[trigger] step_size[j]).wf() by {
                assert(can_with_step_size(a[j], b[j], step_size[j]));
            }
        }
        Quantizer { a, b, n_levels, step_size }
    }
}

impl<T: FiniteFloat, const DIM: usize> HasQuantizationMethods<T, DIM> for Quantizer<T, DIM> {
    open spec fn q_wf(&self) -> bool {
        &&& T::can_from_usize(0)
        &&& forall|i: int| 0 <= i < DIM ==> (#[trigger] self.a[i]).wf()
        &&& forall|i: int| 0 <= i < DIM ==> (#[trigger] self.b[i]).wf()
        &&& forall|i: int| 0 <= i < DIM ==> (#[trigger] self.step_size[i]).wf()
    }

    open spec fn can_quantize(&self, x: [T; DIM]) -> bool {
        forall|i: int|
            0 <= i < DIM ==> #[trigger] axis_can_quantize(self.a[i], self.step_size[i], x[i])
    }

    open spec fn can_dequantize(&self, n: [usize; DIM]) -> bool {
        forall|i: int|
            0 <= i < DIM ==> #[trigger] axis_can_dequantize(self.a[i], self.step_size[i], n[i])
    }

    open spec fn spec_quantize(&self, x: [T; DIM], i: int) -> usize {
        axis_quantize(self.a[i], self.step_size[i], x[i])
    }

    open spec fn spec_quantize_ieee754(&self, x: [T; DIM], i: int) -> usize {
        axis_quantize_ieee754(self.a[i], self.step_size[i], x[i])
    }

    open spec fn spec_dequantize(&self, n: [usize; DIM], i: int) -> T {
        axis_dequantize(self.a[i], self.step_size[i], n[i])
    }

    fn quantize(&self, x: [T; DIM]) -> (r: [usize; DIM]) {
        let mut r: [usize; DIM] = array_fill_for_copy_types::<usize, DIM>(0);
        let mut i: usize = 0;
        while i < DIM
            invariant
                0 <= i <= DIM,
                self.q_wf(),
                self.can_quantize(x),
                forall|j: int| 0 <= j < i ==> #[trigger] r[j] == self.spec_quantize(x, j),
            decreases DIM - i,
        {
            assert(axis_can_quantize(self.a[i as int], self.step_size[i as int], x[i as int]));
            let step = self.step_size[i];
            let v: usize = if step.is_zero() {
                0
            } else {
                x[i].sub(self.a[i]).div(step).round().to_usize()
            };
            r[i] = v;
            i += 1;
        }
        r
    }

    fn quantize_ieee754(&self, x: [T; DIM]) -> (r: [usize; DIM]) {
        let mut r: [usize; DIM] = array_fill_for_copy_types::<usize, DIM>(0);
        let mut i: usize = 0;
        while i < DIM
            invariant
                0 <= i <= DIM,
                self.q_wf(),
                self.can_quantize(x),
                forall|j: int| 0 <= j < i ==> #[trigger] r[j] == self.spec_quantize_ieee754(x, j),
            decreases DIM - i,
        {
            assert(axis_can_quantize(self.a[i as int], self.step_size[i as int], x[i as int]));
            let step = self.step_size[i];
            let v: usize = if step.is_zero() {
                0
            } else {
                x[i].sub(self.a[i]).div(step).round_ieee754()
            };
            r[i] = v;
            i += 1;
        }
        r
    }

    fn dequantize(&self, n: [usize; DIM]) -> (r: [T; DIM]) {
        let mut r: [T; DIM] = array_fill_for_copy_types::<T, DIM>(T::from_usize(0));
        let mut i: usize = 0;
        while i < DIM
            invariant
                0 <= i <= DIM,
                self.q_wf(),
                self.can_dequantize(n),
                forall|j: int| 0 <= j < i ==> #[trigger] r[j] == self.spec_dequantize(n, j),
            decreases DIM - i,
        {
            assert(axis_can_dequantize(self.a[i as int], self.step_size[i as int], n[i as int]));
            r[i] = self.a[i].add(T::from_usize(n[i]).mul(self.step_size[i]));
            i += 1;
        }
        r
    }
}

} // verus!
