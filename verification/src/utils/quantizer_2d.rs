use vstd::prelude::*;

use crate::traits::{FiniteFloat, HasQuantizationMethods};
use crate::utils::quantizer::{
    axis_can_dequantize, axis_can_quantize, axis_dequantize, axis_quantize, axis_quantize_ieee754,
    can_with_n, can_with_step_size, spec_step_count, spec_with_n_step, Quantizer,
};

verus! {

/// A two-dimensional quantizer: notational sugar over two independent
/// one-dimensional [`Quantizer`] axes, taking and returning pairs
/// instead of arrays.
#[derive(Debug, Clone, Copy)]
pub struct Quantizer2d<T: FiniteFloat> {
    /// The axis for the first coordinate.
    pub quantizer_x: Quantizer<T, 1>,
    /// The axis for the second coordinate.
    pub quantizer_y: Quantizer<T, 1>,
}

impl<T: FiniteFloat> Quantizer2d<T> {
    /// Both axes are well-formed.
    pub open spec fn wf2(&self) -> bool {
        self.quantizer_x.q_wf() && self.quantizer_y.q_wf()
    }

    /// When the pair `vec` may be quantized (under either policy).
    pub open spec fn can_quantize2(&self, vec: (T, T)) -> bool {
        &&& axis_can_quantize(self.quantizer_x.a[0], self.quantizer_x.step_size[0], vec.0)
        &&& axis_can_quantize(self.quantizer_y.a[0], self.quantizer_y.step_size[0], vec.1)
    }

    /// When the index pair `vec_n` may be dequantized.
    pub open spec fn can_dequantize2(&self, vec_n: (usize, usize)) -> bool {
        &&& axis_can_dequantize(self.quantizer_x.a[0], self.quantizer_x.step_size[0], vec_n.0)
        &&& axis_can_dequantize(self.quantizer_y.a[0], self.quantizer_y.step_size[0], vec_n.1)
    }

    /// Construct from per-axis level counts.
    pub fn with_nn(vec_a: (T, T), vec_b: (T, T), nx: usize, ny: usize) -> (r: Self)
        requires
            T::can_from_usize(0),
            can_with_n(vec_a.0, vec_b.0, nx),
            can_with_n(vec_a.1, vec_b.1, ny),
        ensures
            r.quantizer_x.a[0] == vec_a.0,
            r.quantizer_x.b[0] == vec_b.0,
            r.quantizer_x.n_levels[0] == nx,
            r.quantizer_x.step_size[0] == spec_with_n_step(vec_a.0, vec_b.0, nx),
            r.quantizer_y.a[0] == vec_a.1,
            r.quantizer_y.b[0] == vec_b.1,
            r.quantizer_y.n_levels[0] == ny,
            r.quantizer_y.step_size[0] == spec_with_n_step(vec_a.1, vec_b.1, ny),
            r.wf2(),
    {
        Quantizer2d {
            quantizer_x: Quantizer::with_n([vec_a.0], [vec_b.0], [nx]),
            quantizer_y: Quantizer::with_n([vec_a.1], [vec_b.1], [ny]),
        }
    }

    /// Construct from per-axis level counts given as one pair; the same
    /// map as [`Quantizer2d::with_nn`].
    pub fn with_walls(vec_a: (T, T), vec_b: (T, T), walls: (usize, usize)) -> (r: Self)
        requires
            T::can_from_usize(0),
            can_with_n(vec_a.0, vec_b.0, walls.0),
            can_with_n(vec_a.1, vec_b.1, walls.1),
        ensures
            r.quantizer_x.a[0] == vec_a.0,
            r.quantizer_x.b[0] == vec_b.0,
            r.quantizer_x.n_levels[0] == walls.0,
            r.quantizer_x.step_size[0] == spec_with_n_step(vec_a.0, vec_b.0, walls.0),
            r.quantizer_y.a[0] == vec_a.1,
            r.quantizer_y.b[0] == vec_b.1,
            r.quantizer_y.n_levels[0] == walls.1,
            r.quantizer_y.step_size[0] == spec_with_n_step(vec_a.1, vec_b.1, walls.1),
            r.wf2(),
    {
        Quantizer2d {
            quantizer_x: Quantizer::with_n([vec_a.0], [vec_b.0], [walls.0]),
            quantizer_y: Quantizer::with_n([vec_a.1], [vec_b.1], [walls.1]),
        }
    }

    /// Construct from per-axis step sizes.
    pub fn with_step_sizes(vec_a: (T, T), vec_b: (T, T), ss_x: T, ss_y: T) -> (r: Self)
        requires
            T::can_from_usize(0),
            can_with_step_size(vec_a.0, vec_b.0, ss_x),
            can_with_step_size(vec_a.1, vec_b.1, ss_y),
        ensures
            r.quantizer_x.a[0] == vec_a.0,
            r.quantizer_x.b[0] == vec_b.0,
            r.quantizer_x.step_size[0] == ss_x,
            r.quantizer_x.n_levels[0] == spec_step_count(vec_a.0, vec_b.0, ss_x),
            r.quantizer_y.a[0] == vec_a.1,
            r.quantizer_y.b[0] == vec_b.1,
            r.quantizer_y.step_size[0] == ss_y,
            r.quantizer_y.n_levels[0] == spec_step_count(vec_a.1, vec_b.1, ss_y),
            r.wf2(),
    {
        Quantizer2d {
            quantizer_x: Quantizer::with_step_size([vec_a.0], [vec_b.0], [ss_x]),
            quantizer_y: Quantizer::with_step_size([vec_a.1], [vec_b.1], [ss_y]),
        }
    }

    /// Quantize with the truncating (cast-style) rounding policy, each
    /// coordinate on its own axis.
    pub fn quantize_ieee754(&self, vec: (T, T)) -> (r: (usize, usize))
        requires
            self.wf2(),
            self.can_quantize2(vec),
        ensures
            r.0 == axis_quantize_ieee754(
                self.quantizer_x.a[0],
                self.quantizer_x.step_size[0],
                vec.0,
            ),
            r.1 == axis_quantize_ieee754(
                self.quantizer_y.a[0],
                self.quantizer_y.step_size[0],
                vec.1,
            ),
    {
        let rx = self.quantizer_x.quantize_ieee754([vec.0]);
        let ry = self.quantizer_y.quantize_ieee754([vec.1]);
        (rx[0], ry[0])
    }

    /// Quantize with the nearest rounding policy, each coordinate on its
    /// own axis.
    pub fn quantize(&self, vec: (T, T)) -> (r: (usize, usize))
        requires
            self.wf2(),
            self.can_quantize2(vec),
        ensures
            r.0 == axis_quantize(self.quantizer_x.a[0], self.quantizer_x.step_size[0], vec.0),
            r.1 == axis_quantize(self.quantizer_y.a[0], self.quantizer_y.step_size[0], vec.1),
    {
        let rx = self.quantizer_x.quantize([vec.0]);
        let ry = self.quantizer_y.quantize([vec.1]);
        (rx[0], ry[0])
    }

    /// Map an index pair back to continuous coordinates, each index on
    /// its own axis.
    pub fn dequantize(&self, vec_n: (usize, usize)) -> (r: (T, T))
        requires
            self.wf2(),
            self.can_dequantize2(vec_n),
        ensures
            r.0 == axis_dequantize(self.quantizer_x.a[0], self.quantizer_x.step_size[0], vec_n.0),
            r.1 == axis_dequantize(self.quantizer_y.a[0], self.quantizer_y.step_size[0], vec_n.1),
    {
        let rx = self.quantizer_x.dequantize([vec_n.0]);
        let ry = self.quantizer_y.dequantize([vec_n.1]);
        (rx[0], ry[0])
    }
}

} // verus!
