use quantized_pathfinding::pseudo_float::PseudoFloat;
use quantized_pathfinding::traits::FiniteFloat;
use quantized_pathfinding::utils::quantizer_2d::Quantizer2d;

fn pf(num: i64, den: i64) -> PseudoFloat {
    PseudoFloat::from_ratio(num, den)
}

fn pfi(w: i64) -> PseudoFloat {
    PseudoFloat::from_int(w)
}

fn abs_pf(x: PseudoFloat) -> PseudoFloat {
    if x < pfi(0) {
        pfi(0).sub(x)
    } else {
        x
    }
}

// methods
#[test]
fn test_quantizer2d_with_nn_f32() {
    let vec_a = (pfi(0), pfi(0));
    let vec_b = (pfi(10), pfi(20));
    let nx = 11;
    let ny = 21;

    let quantizer = Quantizer2d::with_nn(vec_a, vec_b, nx, ny);

    assert_eq!(quantizer.quantize((pfi(0), pfi(0))), (0, 0));
    assert_eq!(quantizer.quantize((pfi(10), pfi(20))), (10, 20));

    assert_eq!(quantizer.quantize((pfi(5), pfi(10))), (5, 10));
}

#[test]
fn test_quantizer2d_with_nn_f64() {
    let vec_a = (pfi(0), pfi(0));
    let vec_b = (pfi(1), pfi(1));
    let nx = 101;
    let ny = 101;

    let quantizer = Quantizer2d::with_nn(vec_a, vec_b, nx, ny);

    assert_eq!(quantizer.quantize((pf(5, 10), pf(5, 10))), (50, 50));
    assert_eq!(quantizer.quantize((pf(25, 100), pf(75, 100))), (25, 75));
}

#[test]
fn test_quantizer2d_with_step_sizes() {
    let vec_a = (pfi(0), pfi(0));
    let vec_b = (pfi(10), pfi(20));
    let ss_x = pfi(1);
    let ss_y = pfi(2);

    let quantizer = Quantizer2d::with_step_sizes(vec_a, vec_b, ss_x, ss_y);

    assert_eq!(quantizer.quantize((pfi(3), pfi(6))), (3, 3));
    assert_eq!(quantizer.quantize((pf(75, 10), pfi(15))), (8, 8));
}

#[test]
fn test_quantize_dequantize_roundtrip() {
    let vec_a = (pfi(0), pfi(0));
    let vec_b = (pfi(100), pfi(200));
    let nx = 101;
    let ny = 201;

    let quantizer = Quantizer2d::with_nn(vec_a, vec_b, nx, ny);

    let test_points = vec![
        (pfi(0), pfi(0)),
        (pfi(50), pfi(100)),
        (pfi(100), pfi(200)),
        (pfi(25), pfi(75)),
    ];

    for point in test_points {
        let quantized = quantizer.quantize(point);
        let dequantized = quantizer.dequantize(quantized);

        assert!(abs_pf(dequantized.0.sub(point.0)) < pf(1, 10_000_000_000));
        assert!(abs_pf(dequantized.1.sub(point.1)) < pf(1, 10_000_000_000));
    }
}

#[test]
fn unit_quantizer_2d_test_clone_and_copy() {
    let quantizer = Quantizer2d::with_nn((pfi(0), pfi(0)), (pfi(10), pfi(10)), 11, 11);

    // Test Clone
    let cloned = quantizer.clone();
    assert_eq!(
        quantizer.quantize((pfi(5), pfi(5))),
        cloned.quantize((pfi(5), pfi(5)))
    );

    // Test Copy
    let copied = quantizer;
    assert_eq!(
        quantizer.quantize((pfi(5), pfi(5))),
        copied.quantize((pfi(5), pfi(5)))
    );
}

#[test]
fn unit_quantizer_2d_test_debug_trait() {
    let quantizer = Quantizer2d::with_nn((pfi(0), pfi(0)), (pfi(10), pfi(10)), 11, 11);

    // Test that Debug is implemented
    let debug_string = format!("{:?}", quantizer);
    assert!(debug_string.contains("Quantizer2d"));
}

#[test]
fn unit_quantizer_2d_test_finite_float_trait_f32() {
    // Test the FiniteFloat conversions and rounding
    let n = 42usize;
    let f = PseudoFloat::from_usize(n);
    assert_eq!(f, pfi(42));
    assert_eq!(f.to_usize(), n);

    let rounded = pf(37, 10).round();
    assert_eq!(rounded, pfi(4));

    let rounded2 = pf(32, 10).round();
    assert_eq!(rounded2, pfi(3));
}

#[test]
fn unit_quantizer_2d_test_finite_float_trait_f64() {
    // Test the FiniteFloat conversions and rounding
    let n = 123usize;
    let f = PseudoFloat::from_usize(n);
    assert_eq!(f, pfi(123));
    assert_eq!(f.to_usize(), n);

    let rounded = pf(28, 10).round();
    assert_eq!(rounded, pfi(3));

    let rounded2 = pf(21, 10).round();
    assert_eq!(rounded2, pfi(2));
}

#[test]
fn test_arithmetic_operations() {
    // Test that FiniteFloat types support required arithmetic
    let a = pfi(5);
    let b = pfi(3);

    assert_eq!(a.add(b), pfi(8));
    assert_eq!(a.sub(b), pfi(2));
    assert_eq!(a.mul(b), pfi(15));
    assert_eq!(a.div(b), pf(5, 3));
}

#[test]
fn test_all_round_methods() {
    let quantizer = Quantizer2d::with_nn((pfi(0), pfi(0)), (pfi(1), pfi(1)), 2, 2);

    // Test with minimal grid (2x2)
    assert_eq!(quantizer.quantize((pfi(0), pfi(0))), (0, 0));
    assert_eq!(quantizer.quantize((pfi(1), pfi(1))), (1, 1));

    assert_eq!(quantizer.quantize_ieee754((pf(5, 10), pf(5, 10))), (0, 0));
    assert_eq!(quantizer.quantize((pf(5, 10), pf(5, 10))), (1, 1));
}
