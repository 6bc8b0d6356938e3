//! Quantization layer for running discrete search procedures over
//! continuous coordinate spaces.
//!
//! The crate maps scalars in a bounded continuous range onto integer grid
//! indices and back, generalized over the scalar type (any type implementing
//! [`traits::FiniteFloat`]), the dimension, and two rounding policies
//! (nearest and truncating).  A search adapter lifts a continuous-domain
//! path-finding problem into the discrete grid and delegates the search
//! itself to an external best-first procedure.

pub mod directed;
pub mod laws;
pub mod pseudo_float;
pub mod traits;
pub mod utils;
