pub mod quantizer;
pub mod quantizer_2d;
pub mod quantizer_3d;
