use vstd::prelude::*;

verus! {

/// The minimal arithmetic capability a scalar must offer so that the
/// quantizers can be written once and instantiated for any conforming
/// numeric type.
///
/// Every executable operation is pinned to a spec-level counterpart that
/// each implementation defines, so code that is generic over `FiniteFloat`
/// carries exact contracts.  The `can_*` predicates let an implementation
/// whose arithmetic is bounded (such as a fixed-point scalar) rule out
/// overflowing calls; an unbounded implementation may define them as `true`.
pub trait FiniteFloat: Sized + Copy {
    /// Scalars on which the operations below are meaningful at all.
    spec fn wf(self) -> bool;

    /// What `add` returns.
    spec fn spec_add(self, other: Self) -> Self;

    /// When `add` may be called (for instance: the sum does not overflow).
    spec fn can_add(self, other: Self) -> bool;

    /// What `sub` returns.
    spec fn spec_sub(self, other: Self) -> Self;

    /// When `sub` may be called.
    spec fn can_sub(self, other: Self) -> bool;

    /// What `mul` returns.
    spec fn spec_mul(self, other: Self) -> Self;

    /// When `mul` may be called.
    spec fn can_mul(self, other: Self) -> bool;

    /// What `div` returns.
    spec fn spec_div(self, other: Self) -> Self;

    /// When `div` may be called; implies a non-zero divisor.
    spec fn can_div(self, other: Self) -> bool;

    /// What `round` returns: the scalar rounded to the nearest integral
    /// value, halves away from zero.
    spec fn spec_round(self) -> Self;

    /// What `round_ieee754` returns: the scalar truncated toward zero,
    /// with negative values collapsing to zero as in a cast to `usize`.
    spec fn spec_round_ieee754(self) -> usize;

    /// What `to_usize` returns: truncation toward zero for non-negative
    /// scalars; negative scalars collapse to zero.
    spec fn spec_to_usize(self) -> usize;

    /// What `from_usize` returns.
    spec fn spec_from_usize(n: usize) -> Self;

    /// When `from_usize` may be called (the count is representable).
    spec fn can_from_usize(n: usize) -> bool;

    /// Whether the scalar is the additive zero; quantization branches on
    /// this to keep a degenerate (zero step) axis from dividing by zero.
    spec fn spec_is_zero(self) -> bool;

    fn add(self, other: Self) -> (r: Self)
        requires
            self.wf(),
            other.wf(),
            self.can_add(other),
        ensures
            r == self.spec_add(other),
            r.wf(),
    ;

    fn sub(self, other: Self) -> (r: Self)
        requires
            self.wf(),
            other.wf(),
            self.can_sub(other),
        ensures
            r == self.spec_sub(other),
            r.wf(),
    ;

    fn mul(self, other: Self) -> (r: Self)
        requires
            self.wf(),
            other.wf(),
            self.can_mul(other),
        ensures
            r == self.spec_mul(other),
            r.wf(),
    ;

    fn div(self, other: Self) -> (r: Self)
        requires
            self.wf(),
            other.wf(),
            self.can_div(other),
        ensures
            r == self.spec_div(other),
            r.wf(),
    ;

    fn round(self) -> (r: Self)
        requires
            self.wf(),
        ensures
            r == self.spec_round(),
            r.wf(),
    ;

    fn round_ieee754(self) -> (r: usize)
        requires
            self.wf(),
        ensures
            r == self.spec_round_ieee754(),
    ;

    fn to_usize(self) -> (r: usize)
        requires
            self.wf(),
        ensures
            r == self.spec_to_usize(),
    ;

    fn from_usize(n: usize) -> (r: Self)
        requires
            Self::can_from_usize(n),
        ensures
            r == Self::spec_from_usize(n),
            r.wf(),
    ;

    fn is_zero(self) -> (r: bool)
        requires
            self.wf(),
        ensures
            r == self.spec_is_zero(),
    ;

    /// Law every implementation proves: the count zero is representable
    /// and converts to the additive zero.  The degenerate-quantizer
    /// guarantee (a single-level axis always quantizes to index zero)
    /// rests on it.
    proof fn from_usize_zero_is_zero()
        ensures
            Self::can_from_usize(0),
            Self::spec_from_usize(0).spec_is_zero(),
            Self::spec_from_usize(0).wf(),
    ;
}

/// The interface of a `DIM`-dimensional quantizer over the scalar type
/// `T`: an element-wise map from continuous coordinates to grid indices
/// (under a nearest and a truncating rounding policy) and back.
///
/// The spec members are defined by each implementation, so the exec
/// methods carry exact contracts: the result of every operation is pinned,
/// axis by axis, to the implementation's own spec-level formula.
pub trait HasQuantizationMethods<T: FiniteFloat, const DIM: usize>: Sized {
    /// Quantizer states whose scalars are well-formed.
    spec fn q_wf(&self) -> bool;

    /// When the coordinate `x` may be quantized (under either policy).
    spec fn can_quantize(&self, x: [T; DIM]) -> bool;

    /// When the index vector `n` may be dequantized.
    spec fn can_dequantize(&self, n: [usize; DIM]) -> bool;

    /// The index that axis `i` assigns to `x[i]` under the nearest policy.
    spec fn spec_quantize(&self, x: [T; DIM], i: int) -> usize;

    /// The index that axis `i` assigns to `x[i]` under the truncating
    /// policy.
    spec fn spec_quantize_ieee754(&self, x: [T; DIM], i: int) -> usize;

    /// The scalar that axis `i` maps the index `n[i]` back to.
    spec fn spec_dequantize(&self, n: [usize; DIM], i: int) -> T;

    /// Nearest-policy quantization: round each normalized offset to the
    /// closest index, halves away from zero.
    fn quantize(&self, x: [T; DIM]) -> (r: [usize; DIM])
        requires
            self.q_wf(),
            self.can_quantize(x),
        ensures
            forall|i: int| 0 <= i < DIM ==> r[i] == self.spec_quantize(x, i),
    ;

    /// Truncating-policy quantization: truncate each normalized offset
    /// toward zero, as a cast to `usize` would.
    fn quantize_ieee754(&self, x: [T; DIM]) -> (r: [usize; DIM])
        requires
            self.q_wf(),
            self.can_quantize(x),
        ensures
            forall|i: int| 0 <= i < DIM ==> r[i] == self.spec_quantize_ieee754(x, i),
    ;

    /// Map a vector of grid indices back to continuous coordinates.
    fn dequantize(&self, n: [usize; DIM]) -> (r: [T; DIM])
        requires
            self.q_wf(),
            self.can_dequantize(n),
        ensures
            forall|i: int| 0 <= i < DIM ==> r[i] == self.spec_dequantize(n, i),
    ;
}

} // verus!
