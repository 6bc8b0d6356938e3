use quantized_pathfinding::pseudo_float::PseudoFloat;
use quantized_pathfinding::traits::{FiniteFloat, HasQuantizationMethods};
use quantized_pathfinding::utils::quantizer::Quantizer;

fn pf(num: i64, den: i64) -> PseudoFloat {
    PseudoFloat::from_ratio(num, den)
}

fn pfi(w: i64) -> PseudoFloat {
    PseudoFloat::from_int(w)
}

fn abs_pf(x: PseudoFloat) -> PseudoFloat {
    if x < pfi(0) {
        pfi(0).sub(x)
    } else {
        x
    }
}

#[test]
fn test_quantizer_1d_with_n() {
    let a = [pfi(0)];
    let b = [pfi(10)];
    let n_levels = [11]; // 0, 1, 2, ..., 10

    let quantizer = Quantizer::with_n(a, b, n_levels);

    assert_eq!(quantizer.n_levels, [11]);

    // Test quantization
    assert_eq!(quantizer.quantize([pfi(0)]), [0]);
    assert_eq!(quantizer.quantize([pfi(10)]), [10]);
    assert_eq!(quantizer.quantize([pfi(5)]), [5]);
    assert_eq!(quantizer.quantize([pf(25, 10)]), [3]);
    assert_eq!(quantizer.quantize_ieee754([pf(25, 10)]), [2]); // down

    // Test dequantization
    assert_eq!(quantizer.dequantize([0]), [pfi(0)]);
    assert_eq!(quantizer.dequantize([10]), [pfi(10)]);
    assert_eq!(quantizer.dequantize([5]), [pfi(5)]);
}

#[test]
fn test_quantizer_2d_with_n() {
    let a = [pfi(0), pfi(-5)];
    let b = [pfi(10), pfi(5)];
    let n_levels = [11, 21]; // x: 0-10, y: 0-20

    let quantizer = Quantizer::with_n(a, b, n_levels);

    assert_eq!(quantizer.n_levels, [11, 21]);

    // Test corner points
    assert_eq!(quantizer.quantize([pfi(0), pfi(-5)]), [0, 0]);
    assert_eq!(quantizer.quantize([pfi(10), pfi(5)]), [10, 20]);

    // Test middle point
    assert_eq!(quantizer.quantize([pfi(5), pfi(0)]), [5, 10]);

    // Test dequantization
    assert_eq!(quantizer.dequantize([0, 0]), [pfi(0), pfi(-5)]);
    assert_eq!(quantizer.dequantize([10, 20]), [pfi(10), pfi(5)]);
}

#[test]
fn test_quantizer_3d_with_n() {
    let a = [pfi(0), pfi(0), pfi(0)];
    let b = [pfi(1), pfi(2), pfi(3)];
    let n_levels = [2, 3, 4]; // Minimal levels for each dimension

    let quantizer = Quantizer::with_n(a, b, n_levels);

    assert_eq!(quantizer.n_levels, [2, 3, 4]);

    // Test 3D quantization
    assert_eq!(quantizer.quantize([pfi(0), pfi(0), pfi(0)]), [0, 0, 0]);
    assert_eq!(quantizer.quantize([pfi(1), pfi(2), pfi(3)]), [1, 2, 3]);
    assert_eq!(quantizer.quantize([pf(5, 10), pfi(1), pf(15, 10)]), [1, 1, 2]);

    assert_eq!(quantizer.quantize_ieee754([pfi(0), pfi(0), pfi(0)]), [0, 0, 0]);
    assert_eq!(quantizer.quantize_ieee754([pfi(1), pfi(2), pfi(3)]), [1, 2, 3]);
    assert_eq!(quantizer.quantize_ieee754([pf(5, 10), pfi(1), pf(15, 10)]), [0, 1, 1]);
}

#[test]
fn test_quantizer_with_step_size_1d() {
    let a = [pfi(0)];
    let b = [pfi(10)];
    let step_size = [pfi(1)];

    let quantizer = Quantizer::with_step_size(a, b, step_size);

    // Should have 11 levels (0 to 10 with step 1)
    assert_eq!(quantizer.n_levels, [11]);

    // Test quantization with explicit step size
    assert_eq!(quantizer.quantize([pf(37, 10)]), [4]); // Should round to 4
    assert_eq!(quantizer.quantize([pf(32, 10)]), [3]); // Should round to 3
}

#[test]
fn test_quantizer_with_step_size_2d() {
    let a = [pfi(0), pfi(0)];
    let b = [pfi(10), pfi(20)];
    let step_size = [pfi(2), pfi(5)];

    let quantizer = Quantizer::with_step_size(a, b, step_size);

    // x: 0, 2, 4, 6, 8, 10 (6 levels)
    // y: 0, 5, 10, 15, 20 (5 levels)
    assert_eq!(quantizer.n_levels, [6, 5]);

    assert_eq!(quantizer.quantize([pfi(4), pfi(10)]), [2, 2]);
    assert_eq!(quantizer.quantize([pf(61, 10), pfi(15)]), [3, 3]);
}

#[test]
fn test_quantize_dequantize_roundtrip_1d() {
    let a = [pfi(0)];
    let b = [pfi(100)];
    let n_levels = [101];

    let quantizer = Quantizer::with_n(a, b, n_levels);

    let test_values = [pfi(0), pfi(25), pfi(50), pfi(75), pfi(100)];

    for &val in &test_values {
        let quantized = quantizer.quantize([val]);
        let dequantized = quantizer.dequantize(quantized);

        // Should be very close (within fixed-point resolution)
        assert!(abs_pf(dequantized[0].sub(val)) < pf(1, 1_000_000));
    }
}

#[test]
fn test_quantize_dequantize_roundtrip_2d() {
    let a = [pfi(0), pfi(0)];
    let b = [pfi(10), pfi(20)];
    let n_levels = [11, 21];

    let quantizer = Quantizer::with_n(a, b, n_levels);

    let test_points = [
        [pfi(0), pfi(0)],
        [pfi(5), pfi(10)],
        [pfi(10), pfi(20)],
        [pfi(2), pfi(4)],
    ];

    for point in test_points {
        let quantized = quantizer.quantize(point);
        let dequantized = quantizer.dequantize(quantized);

        for i in 0..2 {
            assert!(abs_pf(dequantized[i].sub(point[i])) < pf(1, 10_000_000_000));
        }
    }
}

#[test]
fn test_quantize_ieee754_vs_regular() {
    let a = [pfi(0)];
    let b = [pfi(10)];
    let n_levels = [11];

    let quantizer = Quantizer::with_n(a, b, n_levels);

    // Test the difference between IEEE754 and regular rounding
    let test_values = [
        pf(23, 10), // Should truncate to 2 with IEEE754, round to 2 with regular
        pf(27, 10), // Should truncate to 2 with IEEE754, round to 3 with regular
        pf(39, 10), // Should truncate to 3 with IEEE754, round to 4 with regular
    ];

    for &val in &test_values {
        let regular = quantizer.quantize([val]);
        let ieee754 = quantizer.quantize_ieee754([val]);

        // IEEE754 truncates (as usize), regular rounds
        println!("Value: {:?}, Regular: {:?}, IEEE754: {:?}", val, regular, ieee754);

        // For 2.7: regular should be [3], ieee754 should be [2]
        if val == pf(27, 10) {
            assert_eq!(regular, [3]);
            assert_eq!(ieee754, [2]);
        }
    }
}

// Divide-by-zero does not take place
#[test]
fn test_edge_cases_saturating_sub() {
    // Test with n_levels = [1] to check the degenerate-level behavior
    let a = [pfi(0)];
    let b = [pfi(10)];
    let n_levels = [1];

    let quantizer = Quantizer::with_n(a, b, n_levels);

    // With only 1 level, there is no (n - 1) denominator to divide by:
    // the step collapses to zero and the construction handles the
    // division-by-zero case gracefully.
    assert_eq!(quantizer.n_levels, [1]);
}

#[test]
fn test_negative_ranges() {
    let a = [pfi(-10)];
    let b = [pfi(-1)];
    let n_levels = [10];

    let quantizer = Quantizer::with_n(a, b, n_levels);

    assert_eq!(quantizer.quantize([pfi(-10)]), [0]);
    assert_eq!(quantizer.quantize([pfi(-1)]), [9]);
    assert_eq!(quantizer.quantize([pf(-55, 10)]), [5]);

    assert_eq!(quantizer.quantize_ieee754([pfi(-10)]), [0]);
    assert_eq!(quantizer.quantize_ieee754([pfi(-1)]), [9]);
    assert_eq!(quantizer.quantize_ieee754([pf(-55, 10)]), [4]);
}

#[test]
fn test_mixed_positive_negative_2d() {
    let a = [pfi(-5), pfi(-10)];
    let b = [pfi(5), pfi(10)];
    let n_levels = [11, 21];

    let quantizer = Quantizer::with_n(a, b, n_levels);

    // Test zero point (should be in the middle)
    assert_eq!(quantizer.quantize([pfi(0), pfi(0)]), [5, 10]);

    // Test extremes
    assert_eq!(quantizer.quantize([pfi(-5), pfi(-10)]), [0, 0]);
    assert_eq!(quantizer.quantize([pfi(5), pfi(10)]), [10, 20]);
}

#[test]
fn test_high_dimensional_4d() {
    let a = [pfi(0); 4];
    let b = [pfi(1); 4];
    let n_levels = [2; 4]; // Binary quantization in each dimension

    let quantizer = Quantizer::with_n(a, b, n_levels);

    assert_eq!(quantizer.n_levels, [2; 4]);

    // Test all corners of 4D hypercube
    assert_eq!(quantizer.quantize([pfi(0), pfi(0), pfi(0), pfi(0)]), [0, 0, 0, 0]);
    assert_eq!(quantizer.quantize([pfi(1), pfi(1), pfi(1), pfi(1)]), [1, 1, 1, 1]);
    assert_eq!(
        quantizer.quantize([pf(3, 10), pf(7, 10), pf(2, 10), pf(8, 10)]),
        [0, 1, 0, 1]
    );
}

#[test]
fn test_const_generic_flexibility() {
    // Test that the same code works for different dimensions

    // 1D
    let q1d = Quantizer::with_n([pfi(0)], [pfi(1)], [2]);
    assert_eq!(q1d.quantize([pf(5, 10)]), [1]);

    // 2D
    let q2d = Quantizer::with_n([pfi(0); 2], [pfi(1); 2], [2; 2]);
    assert_eq!(q2d.quantize([pf(5, 10), pf(5, 10)]), [1, 1]);

    // 3D
    let q3d = Quantizer::with_n([pfi(0); 3], [pfi(1); 3], [2; 3]);
    assert_eq!(q3d.quantize([pf(5, 10), pf(5, 10), pf(5, 10)]), [1, 1, 1]);

    // 5D
    let q5d = Quantizer::with_n([pfi(0); 5], [pfi(1); 5], [2; 5]);
    assert_eq!(q5d.quantize([pf(5, 10); 5]), [1; 5]);

    // 42D (yes)
    let q42d = Quantizer::with_n([pfi(0); 42], [pfi(1); 42], [2; 42]);
    assert_eq!(q42d.quantize([pf(5, 10); 42]), [1; 42]);
}

#[test]
fn unit_quantizer_test_clone_and_copy() {
    let a = [pfi(0), pfi(0)];
    let b = [pfi(10), pfi(10)];
    let n_levels = [11, 11];

    let quantizer = Quantizer::with_n(a, b, n_levels);

    // Test Clone
    let cloned = quantizer.clone();
    assert_eq!(
        quantizer.quantize([pfi(5), pfi(5)]),
        cloned.quantize([pfi(5), pfi(5)])
    );

    // Test Copy
    let copied = quantizer;
    assert_eq!(
        quantizer.quantize([pfi(5), pfi(5)]),
        copied.quantize([pfi(5), pfi(5)])
    );
}

#[test]
fn unit_quantizer_test_debug_trait() {
    let a = [pfi(0)];
    let b = [pfi(10)];
    let n_levels = [11];

    let quantizer = Quantizer::with_n(a, b, n_levels);

    // Test that Debug is implemented
    let debug_string = format!("{:?}", quantizer);
    assert!(debug_string.contains("Quantizer"));
}

#[test]
fn test_precision_regular_vs_ieee754() {
    // regular quantization has better precision
    let a = [pfi(0)];
    let b = [pfi(1)];
    let n_levels = [1000001]; // Very fine quantization

    let quantizer = Quantizer::with_n(a, b, n_levels);

    let test_val = pf(123456789, 1_000_000_000);

    let quantized = quantizer.quantize([test_val]);
    let quantized_ieee754 = quantizer.quantize_ieee754([test_val]);

    let dequantized = quantizer.dequantize(quantized);
    let dequantized_ieee754 = quantizer.dequantize(quantized_ieee754);

    assert!(abs_pf(dequantized[0].sub(test_val)) < abs_pf(dequantized_ieee754[0].sub(test_val)));
}

#[test]
fn test_step_size_calculation() {
    let a = [pfi(0), pfi(0)];
    let b = [pfi(10), pfi(20)];
    let step_size = [pf(5, 10), pfi(1)];

    let quantizer = Quantizer::with_step_size(a, b, step_size);

    // Check that n_levels is calculated correctly
    // x: 0 to 10 with step 0.5 = 21 levels (0, 0.5, 1.0, ..., 10.0)
    // y: 0 to 20 with step 1.0 = 21 levels (0, 1, 2, ..., 20)
    assert_eq!(quantizer.n_levels, [21, 21]);
}

#[test]
fn test_boundary_conditions() {
    let a = [pfi(0)];
    let b = [pfi(10)];
    let n_levels = [11];

    let quantizer = Quantizer::with_n(a, b, n_levels);

    // Test values slightly outside bounds
    let slightly_below = quantizer.quantize([pf(-1, 10)]);
    let slightly_above = quantizer.quantize([pf(101, 10)]);

    // Values outside bounds will be handled by the quantization formula
    // They might go negative or exceed bounds, depending on implementation
    println!("Below bounds: {:?}", slightly_below);
    println!("Above bounds: {:?}", slightly_above);
}

#[test]
fn test_ieee754_truncation_behavior() {
    let a = [pfi(0)];
    let b = [pfi(10)];
    let n_levels = [11];

    let quantizer = Quantizer::with_n(a, b, n_levels);

    // Test specific cases where IEEE754 and regular rounding differ
    let test_cases = [
        (pf(19, 10), 1, 2), // IEEE754: truncate to 1, Regular: round to 2
        (pf(21, 10), 2, 2), // IEEE754: truncate to 2, Regular: round to 2
        (pf(29, 10), 2, 3), // IEEE754: truncate to 2, Regular: round to 3
        (pf(35, 10), 3, 4), // IEEE754: truncate to 3, Regular: round to 4
    ];

    for (value, expected_ieee754, expected_regular) in test_cases {
        let ieee754_result = quantizer.quantize_ieee754([value]);
        let regular_result = quantizer.quantize([value]);

        assert_eq!(
            ieee754_result[0], expected_ieee754,
            "IEEE754 quantization failed for value {:?}",
            value
        );
        assert_eq!(
            regular_result[0], expected_regular,
            "Regular quantization failed for value {:?}",
            value
        );
    }
}

#[test]
fn test_zero_step_size_edge_case() {
    // Test what happens when a == b (zero range)
    let a = [pfi(5)];
    let b = [pfi(5)]; // Same as a
    let n_levels = [1];

    let quantizer = Quantizer::with_n(a, b, n_levels);

    // All values should quantize to 0 since there's no range
    assert_eq!(quantizer.quantize([pfi(5)]), [0]);
    assert_eq!(quantizer.quantize([pfi(0)]), [0]);
    assert_eq!(quantizer.quantize([pfi(10)]), [0]);
}

#[test]
fn test_large_dimensions() {
    // Test with a larger dimension count
    let a = [pfi(0); 8];
    let b = [pfi(1); 8];
    let n_levels = [3; 8]; // 3 levels per dimension

    let quantizer = Quantizer::with_n(a, b, n_levels);

    assert_eq!(quantizer.n_levels, [3; 8]);

    // Test corner cases
    let zeros = [pfi(0); 8];
    let ones = [pfi(1); 8];
    let halves = [pf(5, 10); 8];

    assert_eq!(quantizer.quantize(zeros), [0; 8]);
    assert_eq!(quantizer.quantize(ones), [2; 8]);
    assert_eq!(quantizer.quantize(halves), [1; 8]);
}

#[test]
fn test_asymmetric_ranges() {
    // Test with very different ranges in each dimension
    let a = [pfi(0), pfi(-1000), pf(1, 1000)];
    let b = [pfi(1), pfi(1000), pf(2, 1000)];
    let n_levels = [11, 21, 11];

    let quantizer = Quantizer::with_n(a, b, n_levels);

    // Test that each dimension is handled independently
    assert_eq!(quantizer.quantize([pf(5, 10), pfi(0), pf(15, 10000)]), [5, 10, 5]);
    assert_eq!(quantizer.quantize([pfi(0), pfi(-1000), pf(1, 1000)]), [0, 0, 0]);
    assert_eq!(quantizer.quantize([pfi(1), pfi(1000), pf(2, 1000)]), [10, 20, 10]);
}

#[test]
fn test_has_quantization_methods_trait() {
    let a = [pfi(0), pfi(0)];
    let b = [pfi(10), pfi(10)];
    let n_levels = [11, 11];

    let quantizer = Quantizer::with_n(a, b, n_levels);

    // Test that the trait methods work
    let test_point = [pfi(5), pf(75, 10)];

    let quantized_regular = quantizer.quantize(test_point);
    let quantized_ieee754 = quantizer.quantize_ieee754(test_point);
    let dequantized = quantizer.dequantize(quantized_regular);

    assert_eq!(quantized_regular, [5, 8]); // 7.5 rounds to 8
    assert_eq!(quantized_ieee754, [5, 7]); // 7.5 truncates to 7
    assert_eq!(dequantized, [pfi(5), pfi(8)]);
}

#[test]
fn test_step_size_precision() {
    // Test that step sizes are calculated correctly
    let a = [pfi(0)];
    let b = [pfi(1)];
    let step_size = [pf(1, 10)];

    let quantizer = Quantizer::with_step_size(a, b, step_size);

    // Should have 11 levels: 0.0, 0.1, 0.2, ..., 1.0
    assert_eq!(quantizer.n_levels, [11]);

    // Test specific quantization points
    assert_eq!(quantizer.quantize([pf(25, 100)]), [3]);
    assert_eq!(quantizer.quantize([pf(75, 100)]), [8]);

    assert_eq!(quantizer.quantize_ieee754([pf(25, 100)]), [2]);
    assert_eq!(quantizer.quantize_ieee754([pf(75, 100)]), [7]);
}

#[test]
fn test_from_fn_usage() {
    // Test that per-axis construction works correctly in the implementation
    let a = [pfi(1), pfi(2), pfi(3)];
    let b = [pfi(2), pfi(4), pfi(6)];
    let n_levels = [2, 3, 4];

    let quantizer = Quantizer::with_n(a, b, n_levels);

    // Each dimension should have the same step sizes
    // 0: (2.0 -1.0)/(2.0 -1.0) = 1.0
    // 1: (4.0 -2.0)/(3.0 -1.0) = 1.0
    // 2: (6.0 -3.0)/(4.0 -1.0) = 1.0

    let test_point = [pf(25, 10), pfi(3), pf(45, 10)];
    let quantized = quantizer.quantize_ieee754(test_point);

    // Each should quantize based on their respective ranges
    assert_eq!(quantized, [1, 1, 1]); // Middle points in each dimension
}
