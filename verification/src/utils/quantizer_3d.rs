use vstd::prelude::*;

use crate::traits::{FiniteFloat, HasQuantizationMethods};
use crate::utils::quantizer::{
    axis_can_dequantize, axis_can_quantize, axis_dequantize, axis_quantize, axis_quantize_ieee754,
    can_with_n, can_with_step_size, spec_step_count, spec_with_n_step, Quantizer,
};

verus! {

/// A three-dimensional quantizer: notational sugar over three
/// independent one-dimensional [`Quantizer`] axes, taking and returning
/// triples instead of arrays.
#[derive(Debug, Clone, Copy)]
pub struct Quantizer3d<T: FiniteFloat> {
    /// The axis for the first coordinate.
    pub quantizer_x: Quantizer<T, 1>,
    /// The axis for the second coordinate.
    pub quantizer_y: Quantizer<T, 1>,
    /// The axis for the third coordinate.
    pub quantizer_z: Quantizer<T, 1>,
}

impl<T: FiniteFloat> Quantizer3d<T> {
    /// All three axes are well-formed.
    pub open spec fn wf3(&self) -> bool {
        self.quantizer_x.q_wf() && self.quantizer_y.q_wf() && self.quantizer_z.q_wf()
    }

    /// When the triple `vec` may be quantized (under either policy).
    pub open spec fn can_quantize3(&self, vec: (T, T, T)) -> bool {
        &&& axis_can_quantize(self.quantizer_x.a[0], self.quantizer_x.step_size[0], vec.0)
        &&& axis_can_quantize(self.quantizer_y.a[0], self.quantizer_y.step_size[0], vec.1)
        &&& axis_can_quantize(self.quantizer_z.a[0], self.quantizer_z.step_size[0], vec.2)
    }

    /// When the index triple `vec_n` may be dequantized.
    pub open spec fn can_dequantize3(&self, vec_n: (usize, usize, usize)) -> bool {
        &&& axis_can_dequantize(self.quantizer_x.a[0], self.quantizer_x.step_size[0], vec_n.0)
        &&& axis_can_dequantize(self.quantizer_y.a[0], self.quantizer_y.step_size[0], vec_n.1)
        &&& axis_can_dequantize(self.quantizer_z.a[0], self.quantizer_z.step_size[0], vec_n.2)
    }

    /// The index triple assigned to `vec` under the nearest policy.
    pub open spec fn spec_quantize3(&self, vec: (T, T, T)) -> (usize, usize, usize) {
        (
            axis_quantize(self.quantizer_x.a[0], self.quantizer_x.step_size[0], vec.0),
            axis_quantize(self.quantizer_y.a[0], self.quantizer_y.step_size[0], vec.1),
            axis_quantize(self.quantizer_z.a[0], self.quantizer_z.step_size[0], vec.2),
        )
    }

    /// The coordinate triple the index triple `vec_n` maps back to.
    pub open spec fn spec_dequantize3(&self, vec_n: (usize, usize, usize)) -> (T, T, T) {
        (
            axis_dequantize(self.quantizer_x.a[0], self.quantizer_x.step_size[0], vec_n.0),
            axis_dequantize(self.quantizer_y.a[0], self.quantizer_y.step_size[0], vec_n.1),
            axis_dequantize(self.quantizer_z.a[0], self.quantizer_z.step_size[0], vec_n.2),
        )
    }

    /// Construct from per-axis level counts.
    pub fn with_nnn(vec_a: (T, T, T), vec_b: (T, T, T), nx: usize, ny: usize, nz: usize) -> (r:
        Self)
        requires
            T::can_from_usize(0),
            can_with_n(vec_a.0, vec_b.0, nx),
            can_with_n(vec_a.1, vec_b.1, ny),
            can_with_n(vec_a.2, vec_b.2, nz),
        ensures
            r.quantizer_x.a[0] == vec_a.0,
            r.quantizer_x.b[0] == vec_b.0,
            r.quantizer_x.n_levels[0] == nx,
            r.quantizer_x.step_size[0] == spec_with_n_step(vec_a.0, vec_b.0, nx),
            r.quantizer_y.a[0] == vec_a.1,
            r.quantizer_y.b[0] == vec_b.1,
            r.quantizer_y.n_levels[0] == ny,
            r.quantizer_y.step_size[0] == spec_with_n_step(vec_a.1, vec_b.1, ny),
            r.quantizer_z.a[0] == vec_a.2,
            r.quantizer_z.b[0] == vec_b.2,
            r.quantizer_z.n_levels[0] == nz,
            r.quantizer_z.step_size[0] == spec_with_n_step(vec_a.2, vec_b.2, nz),
            r.wf3(),
    {
        Quantizer3d {
            quantizer_x: Quantizer::with_n([vec_a.0], [vec_b.0], [nx]),
            quantizer_y: Quantizer::with_n([vec_a.1], [vec_b.1], [ny]),
            quantizer_z: Quantizer::with_n([vec_a.2], [vec_b.2], [nz]),
        }
    }

    /// Construct from per-axis level counts given as one triple; the
    /// same map as [`Quantizer3d::with_nnn`].
    pub fn with_walls(vec_a: (T, T, T), vec_b: (T, T, T), walls: (usize, usize, usize)) -> (r:
        Self)
        requires
            T::can_from_usize(0),
            can_with_n(vec_a.0, vec_b.0, walls.0),
            can_with_n(vec_a.1, vec_b.1, walls.1),
            can_with_n(vec_a.2, vec_b.2, walls.2),
        ensures
            r.quantizer_x.a[0] == vec_a.0,
            r.quantizer_x.b[0] == vec_b.0,
            r.quantizer_x.n_levels[0] == walls.0,
            r.quantizer_x.step_size[0] == spec_with_n_step(vec_a.0, vec_b.0, walls.0),
            r.quantizer_y.a[0] == vec_a.1,
            r.quantizer_y.b[0] == vec_b.1,
            r.quantizer_y.n_levels[0] == walls.1,
            r.quantizer_y.step_size[0] == spec_with_n_step(vec_a.1, vec_b.1, walls.1),
            r.quantizer_z.a[0] == vec_a.2,
            r.quantizer_z.b[0] == vec_b.2,
            r.quantizer_z.n_levels[0] == walls.2,
            r.quantizer_z.step_size[0] == spec_with_n_step(vec_a.2, vec_b.2, walls.2),
            r.wf3(),
    {
        Quantizer3d {
            quantizer_x: Quantizer::with_n([vec_a.0], [vec_b.0], [walls.0]),
            quantizer_y: Quantizer::with_n([vec_a.1], [vec_b.1], [walls.1]),
            quantizer_z: Quantizer::with_n([vec_a.2], [vec_b.2], [walls.2]),
        }
    }

    /// Construct from per-axis step sizes.
    pub fn with_step_sizes(vec_a: (T, T, T), vec_b: (T, T, T), ss_x: T, ss_y: T, ss_z: T) -> (r:
        Self)
        requires
            T::can_from_usize(0),
            can_with_step_size(vec_a.0, vec_b.0, ss_x),
            can_with_step_size(vec_a.1, vec_b.1, ss_y),
            can_with_step_size(vec_a.2, vec_b.2, ss_z),
        ensures
            r.quantizer_x.a[0] == vec_a.0,
            r.quantizer_x.b[0] == vec_b.0,
            r.quantizer_x.step_size[0] == ss_x,
            r.quantizer_x.n_levels[0] == spec_step_count(vec_a.0, vec_b.0, ss_x),
            r.quantizer_y.a[0] == vec_a.1,
            r.quantizer_y.b[0] == vec_b.1,
            r.quantizer_y.step_size[0] == ss_y,
            r.quantizer_y.n_levels[0] == spec_step_count(vec_a.1, vec_b.1, ss_y),
            r.quantizer_z.a[0] == vec_a.2,
            r.quantizer_z.b[0] == vec_b.2,
            r.quantizer_z.step_size[0] == ss_z,
            r.quantizer_z.n_levels[0] == spec_step_count(vec_a.2, vec_b.2, ss_z),
            r.wf3(),
    {
        Quantizer3d {
            quantizer_x: Quantizer::with_step_size([vec_a.0], [vec_b.0], [ss_x]),
            quantizer_y: Quantizer::with_step_size([vec_a.1], [vec_b.1], [ss_y]),
            quantizer_z: Quantizer::with_step_size([vec_a.2], [vec_b.2], [ss_z]),
        }
    }

    /// Quantize with the truncating (cast-style) rounding policy, each
    /// coordinate on its own axis.
    pub fn quantize_ieee754(&self, vec: (T, T, T)) -> (r: (usize, usize, usize))
        requires
            self.wf3(),
            self.can_quantize3(vec),
        ensures
            r.0 == axis_quantize_ieee754(
                self.quantizer_x.a[0],
                self.quantizer_x.step_size[0],
                vec.0,
            ),
            r.1 == axis_quantize_ieee754(
                self.quantizer_y.a[0],
                self.quantizer_y.step_size[0],
                vec.1,
            ),
            r.2 == axis_quantize_ieee754(
                self.quantizer_z.a[0],
                self.quantizer_z.step_size[0],
                vec.2,
            ),
    {
        let rx = self.quantizer_x.quantize_ieee754([vec.0]);
        let ry = self.quantizer_y.quantize_ieee754([vec.1]);
        let rz = self.quantizer_z.quantize_ieee754([vec.2]);
        (rx[0], ry[0], rz[0])
    }

    /// Quantize with the nearest rounding policy, each coordinate on its
    /// own axis.
    pub fn quantize(&self, vec: (T, T, T)) -> (r: (usize, usize, usize))
        requires
            self.wf3(),
            self.can_quantize3(vec),
        ensures
            r == self.spec_quantize3(vec),
    {
        let rx = self.quantizer_x.quantize([vec.0]);
        let ry = self.quantizer_y.quantize([vec.1]);
        let rz = self.quantizer_z.quantize([vec.2]);
        (rx[0], ry[0], rz[0])
    }

    /// Map an index triple back to continuous coordinates, each index on
    /// its own axis.
    pub fn dequantize(&self, vec_n: (usize, usize, usize)) -> (r: (T, T, T))
        requires
            self.wf3(),
            self.can_dequantize3(vec_n),
        ensures
            r == self.spec_dequantize3(vec_n),
    {
        let rx = self.quantizer_x.dequantize([vec_n.0]);
        let ry = self.quantizer_y.dequantize([vec_n.1]);
        let rz = self.quantizer_z.dequantize([vec_n.2]);
        (rx[0], ry[0], rz[0])
    }
}

} // verus!
