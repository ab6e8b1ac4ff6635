use fractal_core::Generator;
use fractal_core::escape::escape_iterations;

fn bits(v: f64) -> u64 {
    v.to_bits()
}

#[test]
fn construction_zero_fills_buffer() {
    let g = Generator::new(3, 2);
    assert_eq!(g.data_len(), 6);
    assert_eq!(g.data().as_slice(), &[0u16; 6]);
}

#[test]
fn construction_degenerate_dimensions() {
    let g = Generator::new(0, 5);
    assert_eq!(g.data_len(), 0);
    let g = Generator::new(4, 0);
    assert_eq!(g.data_len(), 0);
    let g = Generator::new(1, 1);
    assert_eq!(g.data_len(), 1);
    assert_eq!(g.data()[0], 0);
}

#[test]
fn entries_stay_within_cap() {
    let mut g = Generator::new(8, 8);
    g.generate(bits(-2.0), bits(2.0), bits(-2.0), bits(2.0), 7);
    assert_eq!(g.data_len(), 64);
    for &entry in g.data() {
        assert!(entry <= 7);
    }
}

#[test]
fn generation_is_deterministic() {
    let mut g1 = Generator::new(16, 9);
    let mut g2 = Generator::new(16, 9);
    g1.generate(bits(-2.5), bits(1.5), bits(-1.25), bits(1.25), 50);
    g2.generate(bits(-2.5), bits(1.5), bits(-1.25), bits(1.25), 50);
    assert_eq!(g1.data(), g2.data());
}

#[test]
fn zero_cap_zero_fills() {
    let mut g = Generator::new(5, 3);
    // A first pass with a nonzero cap leaves nonzero entries behind,
    // so the second pass has to overwrite every one of them.
    g.generate(bits(-2.0), bits(2.0), bits(-2.0), bits(2.0), 9);
    g.generate(bits(-2.0), bits(2.0), bits(-2.0), bits(2.0), 0);
    assert_eq!(g.data().as_slice(), &[0u16; 15]);
}

#[test]
fn single_pixel_at_origin_never_escapes() {
    // The single pixel maps to (0, 0); the state stays at zero through
    // every step, so the loop runs out the full cap.
    let mut g = Generator::new(1, 1);
    g.generate(bits(0.0), bits(0.0), bits(0.0), bits(0.0), 100);
    assert_eq!(g.data().as_slice(), &[100u16]);
}

#[test]
fn two_pixel_row_baseline() {
    // Columns map to x0 = -1 and x0 = 0, both with y0 = 0. The first orbit
    // cycles between (1, 0) and (0, 0); the second stays at (0, 0): neither
    // escapes, so both entries saturate at the cap.
    let mut g = Generator::new(2, 1);
    g.generate(bits(-1.0), bits(1.0), bits(0.0), bits(0.0), 10);
    assert_eq!(g.data().as_slice(), &[10u16, 10u16]);
}

#[test]
fn row_major_index_mapping() {
    // Pixel (i, j) maps to x0 = -1 + 4*j/2 and y0 = 0 + 2*i/2, all exact
    // binary64 values: (-1, 0) cycles forever, (1, 0) escapes after two
    // steps via x2 = 4, (-1, 1) and (1, 1) escape after two steps via
    // y2 = 9. The buffer is row-major, so only its first entry saturates.
    let mut g = Generator::new(2, 2);
    g.generate(bits(-1.0), bits(3.0), bits(0.0), bits(2.0), 10);
    assert_eq!(g.data().as_slice(), &[10u16, 2, 2, 2]);
}

#[test]
fn fractional_viewport_counts() {
    // Columns map to x0 = 0.5 and x0 = 0.5 + 0.25/2 = 0.625, both exact
    // binary64 values. With y0 = 0 the orbit is x -> x^2 + x0 on exact
    // dyadic values: from 0.5 it reaches 4.0 after five steps
    // (0.5, 0.75, 1.0625, 1.62890625, 3.153...), from 0.625 after four
    // (0.625, 1.015625, 1.656..., 3.368...).
    let mut g = Generator::new(2, 1);
    g.generate(bits(0.5), bits(0.75), bits(0.0), bits(0.0), 9);
    assert_eq!(g.data().as_slice(), &[5u16, 4u16]);
}

#[test]
fn immediate_escape_counts_one_step() {
    // x0 = 3 gives x2 = 9 >= 4 after the first step.
    let mut g = Generator::new(1, 1);
    g.generate(bits(3.0), bits(3.0), bits(0.0), bits(0.0), 10);
    assert_eq!(g.data().as_slice(), &[1u16]);
}

#[test]
fn regenerate_overwrites_previous_counts() {
    let mut g = Generator::new(2, 1);
    g.generate(bits(-1.0), bits(1.0), bits(0.0), bits(0.0), 10);
    assert_eq!(g.data().as_slice(), &[10u16, 10u16]);
    g.generate(bits(3.0), bits(5.0), bits(0.0), bits(0.0), 10);
    // Both columns now map to x0 >= 3 and escape on the first step.
    assert_eq!(g.data().as_slice(), &[1u16, 1u16]);
}

#[test]
fn inverted_viewport_is_well_defined() {
    // x_max < x_min is not an error: the diff is negative and the mapping
    // simply runs right to left. Columns map to x0 = 1 - 2*j/2: column 0
    // gets x0 = 1 and escapes after two steps, column 1 gets x0 = 0 and
    // never escapes.
    let mut g = Generator::new(2, 1);
    g.generate(bits(1.0), bits(-1.0), bits(0.0), bits(0.0), 10);
    assert_eq!(g.data().as_slice(), &[2u16, 10u16]);
}

#[test]
fn evaluator_matches_hand_trace() {
    // The origin's orbit never moves, so its count saturates at the cap;
    // x0 = 2.5 squares to 6.25 and escapes on the first step.
    assert_eq!(escape_iterations(bits(0.0), bits(0.0), 25), 25);
    assert_eq!(escape_iterations(bits(2.5), bits(0.0), 25), 1);
    assert_eq!(escape_iterations(bits(0.0), bits(0.0), 0), 0);
}
