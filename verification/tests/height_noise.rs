//! The height field lookup, fed from the coherent-noise source.

use hex_grid::height::HeightField;
use noise::NoiseFn;
use noise::SuperSimplex;

const NOISE_SCALE: f64 = 3.0;

/// Samples the noise source exactly as the terrain does: scaled integer
/// coordinates, kept as raw 32-bit float bits.
fn noise_bits(seed: u32, width: u32, height: u32) -> Vec<u32> {
    let source = SuperSimplex::new(seed);
    let mut data = Vec::new();
    for z in 0..height {
        for x in 0..width {
            let v = source.get([x as f64 / NOISE_SCALE, z as f64 / NOISE_SCALE]) as f32;
            data.push(v.to_bits());
        }
    }
    data
}

#[test]
fn sampling_is_deterministic_for_a_fixed_seed() {
    let first = HeightField::new(4, 4, noise_bits(1, 4, 4));
    let second = HeightField::new(4, 4, noise_bits(1, 4, 4));
    for z in 0..4 {
        for x in 0..4 {
            // Bit-identical, call after call and field after field.
            assert_eq!(first.sample(x, z), first.sample(x, z));
            assert_eq!(first.sample(x, z), second.sample(x, z));
        }
    }
}

#[test]
fn changing_the_seed_changes_the_field() {
    let one = noise_bits(1, 4, 4);
    let two = noise_bits(2, 4, 4);
    assert_ne!(one, two);
    // And the source is not a hard-coded zero surface.
    assert!(one.iter().any(|&bits| f32::from_bits(bits) != 0.0));
}

#[test]
fn sample_reads_the_stored_grid() {
    let field = HeightField::new(3, 2, vec![1, 2, 3, 4, 5, 6]);
    assert_eq!(field.sample(0, 0), 1);
    assert_eq!(field.sample(2, 0), 3);
    assert_eq!(field.sample(0, 1), 4);
    assert_eq!(field.sample(2, 1), 6);
}
