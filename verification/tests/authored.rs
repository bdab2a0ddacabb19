use myocyte::cell::{CellGrid, Look};
use myocyte::grid::place_cells;
use myocyte::influencer::authored::{letter_a_active, Authored, AuthoredShape, LETTER_A};

/// The float geometry the pattern is defined by, for comparison.
fn float_active(shape: AuthoredShape, dims: [u32; 3], spacing: f32, x: u32, y: u32, z: u32) -> bool {
    let half_ext = (dims[0] - 1) as f32 * 0.5 * spacing;
    let outer_r = 0.40 * half_ext;
    let inner_r = 0.70 * outer_r;
    let cx = (x as f32 - (dims[0] - 1) as f32 * 0.5) * spacing;
    let cy = (y as f32 - (dims[1] - 1) as f32 * 0.5) * spacing;
    let cz = (z as f32 - (dims[2] - 1) as f32 * 0.5) * spacing;
    let d2 = cx * cx + cy * cy + cz * cz;
    match shape {
        AuthoredShape::Sphere => d2 < outer_r * outer_r,
        AuthoredShape::Shell => d2 > inner_r * inner_r && d2 < outer_r * outer_r,
        AuthoredShape::LetterA => letter_a_active(x, y),
    }
}

fn stepped(shape: AuthoredShape, dims: [u32; 3]) -> CellGrid {
    let mut g = CellGrid::new(dims).unwrap();
    place_cells(&mut g);
    let mut a = Authored::new(shape);
    a.step(&mut g);
    g
}

#[test]
fn letter_a_bitmap() {
    assert!(letter_a_active(7, 14));
    assert!(letter_a_active(8, 14));
    assert!(!letter_a_active(6, 14));
    assert!(!letter_a_active(0, 0));
    assert!(letter_a_active(1, 1));
    assert!(letter_a_active(14, 2));
    assert!(!letter_a_active(15, 2));
    for x in 3..=13 {
        assert!(letter_a_active(x, 8));
    }
    assert!(!letter_a_active(2, 8));
    assert!(!letter_a_active(14, 8));
    for x in 0..16 {
        assert!(!letter_a_active(x, 15));
    }
}

#[test]
fn letter_a_is_off_outside_the_bitmap() {
    assert!(!letter_a_active(16, 1));
    assert!(!letter_a_active(1, 16));
    assert!(!letter_a_active(u32::MAX, u32::MAX));
    assert_eq!(LETTER_A.len(), 16);
}

#[test]
fn sphere_matches_float_geometry() {
    for dims in [[16, 16, 16], [8, 8, 8], [9, 7, 5], [1, 1, 1], [32, 4, 4]] {
        let g = stepped(AuthoredShape::Sphere, dims);
        for x in 0..dims[0] {
            for y in 0..dims[1] {
                for z in 0..dims[2] {
                    let want = float_active(AuthoredShape::Sphere, dims, 1.0, x, y, z);
                    let on = g.cells[g.idx(x, y, z)].look == Look::AuthoredOn;
                    assert_eq!(on, want, "dims {:?} at {} {} {}", dims, x, y, z);
                }
            }
        }
    }
}

#[test]
fn shell_matches_float_geometry() {
    for dims in [[16, 16, 16], [8, 8, 8], [11, 11, 11]] {
        let g = stepped(AuthoredShape::Shell, dims);
        for x in 0..dims[0] {
            for y in 0..dims[1] {
                for z in 0..dims[2] {
                    let want = float_active(AuthoredShape::Shell, dims, 1.0, x, y, z);
                    let on = g.cells[g.idx(x, y, z)].look == Look::AuthoredOn;
                    assert_eq!(on, want, "dims {:?} at {} {} {}", dims, x, y, z);
                }
            }
        }
    }
}

#[test]
fn sphere_counts_on_sixteen_cube() {
    let g = stepped(AuthoredShape::Sphere, [16, 16, 16]);
    let on = g.cells.iter().filter(|c| c.look == Look::AuthoredOn).count();
    // 25 * S < 900 with S a sum of three odd squares: S in {3, 11, 19, 27, 35}.
    assert_eq!(on, 8 + 24 + 24 + 8 + 24 + 48);
}

#[test]
fn shell_is_inside_sphere() {
    let sphere = stepped(AuthoredShape::Sphere, [16, 16, 16]);
    let shell = stepped(AuthoredShape::Shell, [16, 16, 16]);
    let mut shell_on = 0;
    for i in 0..shell.len() {
        if shell.cells[i].look == Look::AuthoredOn {
            shell_on += 1;
            assert_eq!(sphere.cells[i].look, Look::AuthoredOn);
        }
    }
    assert!(shell_on > 0);
}

#[test]
fn letter_a_pattern_on_grid() {
    let g = stepped(AuthoredShape::LetterA, [16, 16, 4]);
    for x in 0..16 {
        for y in 0..16 {
            for z in 0..4 {
                let on = g.cells[g.idx(x, y, z)].look == Look::AuthoredOn;
                assert_eq!(on, letter_a_active(x, y));
            }
        }
    }
}

#[test]
fn authored_writes_only_once_and_keeps_positions() {
    let mut g = CellGrid::new([4, 4, 4]).unwrap();
    place_cells(&mut g);
    let before = g.cells.clone();
    let mut a = Authored::new(AuthoredShape::Sphere);
    a.step(&mut g);
    for i in 0..g.len() {
        assert_eq!(g.cells[i].position, before[i].position);
    }
    let after_first = g.cells.clone();
    for c in g.cells.iter_mut() {
        c.look = Look::Visible;
    }
    let touched = g.cells.clone();
    a.step(&mut g);
    assert_eq!(g.cells, touched);
    assert_ne!(g.cells, after_first);
}

#[test]
fn sphere_is_mirror_symmetric() {
    let dims = [9, 9, 9];
    let g = stepped(AuthoredShape::Sphere, dims);
    for x in 0..9 {
        for y in 0..9 {
            for z in 0..9 {
                assert_eq!(g.cells[g.idx(x, y, z)].look, g.cells[g.idx(8 - x, y, z)].look);
            }
        }
    }
}

#[test]
fn letter_a_has_sixty_three_cells() {
    let mut n = 0;
    for x in 0..16 {
        for y in 0..16 {
            if letter_a_active(x, y) {
                n += 1;
            }
        }
    }
    assert_eq!(n, 63);
}

#[test]
fn letter_a_is_mirror_symmetric_but_the_crossbar() {
    for y in 0..16 {
        for x in 0..16 {
            if y != 8 {
                assert_eq!(letter_a_active(x, y), letter_a_active(15 - x, y));
            }
        }
    }
    assert!(letter_a_active(13, 8));
    assert!(!letter_a_active(2, 8));
}
