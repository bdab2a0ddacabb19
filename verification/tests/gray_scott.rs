use myocyte::influencer::gray_scott::{idx3, laplacian_stencil, noise_bits, seed_cells};

fn reference_hash(x: u32, y: u32, z: u32, seed: u32) -> u32 {
    let mut v = seed;
    v ^= x.wrapping_mul(0x9e3779b9);
    v = v.rotate_left(5).wrapping_mul(0x85ebca6b);
    v ^= y.wrapping_mul(0xc2b2ae35);
    v = v.rotate_left(7).wrapping_mul(0xcc9e2d51);
    v ^= z.wrapping_mul(0x6b3a36f5);
    v = v.rotate_left(11).wrapping_mul(0x1b873593);
    v ^= v >> 16;
    v = v.wrapping_mul(0x85ebca6b);
    v ^= v >> 13;
    v = v.wrapping_mul(0xc2b2ae35);
    v ^= v >> 16;
    v & 0x00FF_FFFF
}

#[test]
fn idx3_values() {
    assert_eq!(idx3(0, 0, 0, [4, 4, 4]), 0);
    assert_eq!(idx3(1, 2, 3, [4, 4, 4]), 16 + 8 + 3);
    assert_eq!(idx3(3, 3, 3, [4, 4, 4]), 63);
    assert_eq!(idx3(2, 0, 1, [3, 5, 7]), 2 * 35 + 1);
}

#[test]
fn stencil_wraps_at_the_low_corner() {
    let s = laplacian_stencil(0, 0, 0, [4, 4, 4]);
    assert_eq!(s, [16, 48, 4, 12, 1, 3, 0]);
}

#[test]
fn stencil_wraps_at_the_high_corner() {
    let s = laplacian_stencil(3, 3, 3, [4, 4, 4]);
    assert_eq!(s, [idx3(0, 3, 3, [4, 4, 4]), idx3(2, 3, 3, [4, 4, 4]),
                   idx3(3, 0, 3, [4, 4, 4]), idx3(3, 2, 3, [4, 4, 4]),
                   idx3(3, 3, 0, [4, 4, 4]), idx3(3, 3, 2, [4, 4, 4]), 63]);
}

#[test]
fn stencil_interior_and_thin_axes() {
    let d = [5, 6, 7];
    let s = laplacian_stencil(2, 3, 4, d);
    assert_eq!(s, [idx3(3, 3, 4, d), idx3(1, 3, 4, d), idx3(2, 4, 4, d), idx3(2, 2, 4, d),
                   idx3(2, 3, 5, d), idx3(2, 3, 3, d), idx3(2, 3, 4, d)]);
    // An axis of extent 1 is its own neighbor.
    let s = laplacian_stencil(0, 1, 0, [1, 3, 1]);
    assert_eq!(s, [1, 1, 2, 0, 1, 1, 1]);
}

#[test]
fn stencil_neighbors_are_mutual() {
    let d = [4, 5, 3];
    for x in 0..4 {
        for y in 0..5 {
            for z in 0..3 {
                let s = laplacian_stencil(x, y, z, d);
                let me = s[6];
                let xp = laplacian_stencil((x + 1) % 4, y, z, d);
                assert_eq!(xp[1], me);
                let yp = laplacian_stencil(x, (y + 1) % 5, z, d);
                assert_eq!(yp[3], me);
                let zp = laplacian_stencil(x, y, (z + 1) % 3, d);
                assert_eq!(zp[5], me);
            }
        }
    }
}

#[test]
fn seed_block_is_centered() {
    let s = seed_cells([8, 8, 8]);
    assert_eq!(s.len(), 27);
    assert_eq!(s[0], idx3(3, 3, 3, [8, 8, 8]));
    assert_eq!(s[13], idx3(4, 4, 4, [8, 8, 8]));
    assert_eq!(s[26], idx3(5, 5, 5, [8, 8, 8]));
    assert_eq!(s[1], idx3(3, 3, 4, [8, 8, 8]));
    assert_eq!(s[9], idx3(4, 3, 3, [8, 8, 8]));
}

#[test]
fn seed_block_is_clamped_in_small_grids() {
    assert!(seed_cells([1, 1, 1]).iter().all(|i| *i == 0));
    let s = seed_cells([2, 2, 2]);
    // Center 1: coordinates 0, 1, 1 along each axis.
    assert_eq!(s[0], idx3(0, 0, 0, [2, 2, 2]));
    assert_eq!(s[26], idx3(1, 1, 1, [2, 2, 2]));
    assert_eq!(s[2], idx3(0, 0, 1, [2, 2, 2]));
}

#[test]
fn noise_matches_reference_hash() {
    for (x, y, z, seed) in [(0, 0, 0, 7), (1, 2, 3, 8), (15, 15, 15, 7), (u32::MAX, 5, 9, 0), (31, 0, 17, 8)] {
        let b = noise_bits(x, y, z, seed);
        assert_eq!(b, reference_hash(x, y, z, seed));
        assert!(b < 1 << 24);
        let f = b as f32 / 16_777_216.0;
        assert!((0.0..1.0).contains(&f));
    }
}

#[test]
fn noise_is_deterministic_and_seed_dependent() {
    assert_eq!(noise_bits(3, 4, 5, 7), noise_bits(3, 4, 5, 7));
    assert_ne!(noise_bits(3, 4, 5, 7), noise_bits(3, 4, 5, 8));
}
