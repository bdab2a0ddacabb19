//! Static, intentional cell patterns.
//!
//! Unlike Gray-Scott these shapes do not evolve: they are computed on the
//! first `step` and then left alone. Cells inside the shape are switched on
//! (`Look::AuthoredOn`, which keeps their colors and sets the authored "on"
//! opacity); all others are hidden.
//!
//! Geometry, for a grid of extent `d` and cell spacing `s`: the half-extent
//! is `(d[0] - 1) * s / 2`, the sphere's outer radius is 0.4 of it, and the
//! shell's inner radius is 0.7 of the outer one. In half-spacing units a
//! cell's squared distance from the center is `S * s^2 / 4` with
//! `S = X^2 + Y^2 + Z^2` (see `crate::cell::centered`), so
//!   inside the outer radius  <=>  25 * S < 4 * (d[0] - 1)^2
//!   outside the inner radius <=>  625 * S > 49 * (d[0] - 1)^2
//! and the spacing cancels. This assumes a finite, positive spacing (the
//! grid's renderer refuses any other): with spacing 0, or one that is not
//! finite, both sides of the comparison are 0 or NaN and no cell of the
//! sphere or shell would be on.

use vstd::prelude::*;

use crate::cell::{
    CellGrid, GridCell, Look, centered, coord_x, coord_y, coord_z, flat_index, grid_len, in_grid,
    lemma_coords_of_flat_index, lemma_flat_index_bounds,
};

verus! {

/// Which authored pattern to draw.
#[derive(Clone, Copy, Debug, PartialEq, Eq, Structural)]
pub enum AuthoredShape {
    /// A solid ball.
    Sphere,
    /// A hollow ball.
    Shell,
    /// A capital letter A in the `z` columns of the bottom-left 16 x 16 of
    /// the `x`/`y` plane.
    LetterA,
}

/// Influencer that writes one authored pattern into the grid, once.
pub struct Authored {
    shape: AuthoredShape,
    initialized: bool,
}

/// Rows of the letter A: bit `x` of row `y` is column `x` (x = 0 is left),
/// row 0 is the bottom. Sized for a 16 x 16 grid.
pub const LETTER_A: [u16; 16] = [
    0x0000,
    0x6006,
    0x6006,
    0x300C,
    0x300C,
    0x1818,
    0x1818,
    0x1818,
    0x3FF8,
    0x1818,
    0x1818,
    0x0C30,
    0x07E0,
    0x03C0,
    0x0180,
    0x0000,
];

/// Column `x` of row `y` of the letter A is set.
pub open spec fn letter_a_bit(x: int, y: int) -> bool {
    &&& 0 <= x < 16
    &&& 0 <= y < 16
    &&& (LETTER_A[y] >> (x as u16)) & 1u16 == 1u16
}

/// The columns of row `y` of the letter A, written out: two legs that close
/// in towards the top, a crossbar across columns 3 to 13 in row 8, and a
/// peak at columns 7 and 8 in row 14. Rows 0 and 15 are empty.
pub open spec fn letter_a_columns(x: int, y: int) -> bool {
    if y == 1 || y == 2 {
        x == 1 || x == 2 || x == 13 || x == 14
    } else if y == 3 || y == 4 {
        x == 2 || x == 3 || x == 12 || x == 13
    } else if y == 5 || y == 6 || y == 7 || y == 9 || y == 10 {
        x == 3 || x == 4 || x == 11 || x == 12
    } else if y == 8 {
        3 <= x <= 13
    } else if y == 11 {
        x == 4 || x == 5 || x == 10 || x == 11
    } else if y == 12 {
        5 <= x <= 10
    } else if y == 13 {
        6 <= x <= 9
    } else if y == 14 {
        x == 7 || x == 8
    } else {
        false
    }
}

proof fn lemma_bits_0000(x: u16)
    by (bit_vector)
    requires
        x < 16,
    ensures
        (0x0000u16 >> x) & 1u16 != 1u16,
{
}

proof fn lemma_bits_6006(x: u16)
    by (bit_vector)
    requires
        x < 16,
    ensures
        ((0x6006u16 >> x) & 1u16 == 1u16) == (x == 1 || x == 2 || x == 13 || x == 14),
{
}

proof fn lemma_bits_300c(x: u16)
    by (bit_vector)
    requires
        x < 16,
    ensures
        ((0x300Cu16 >> x) & 1u16 == 1u16) == (x == 2 || x == 3 || x == 12 || x == 13),
{
}

proof fn lemma_bits_1818(x: u16)
    by (bit_vector)
    requires
        x < 16,
    ensures
        ((0x1818u16 >> x) & 1u16 == 1u16) == (x == 3 || x == 4 || x == 11 || x == 12),
{
}

proof fn lemma_bits_3ff8(x: u16)
    by (bit_vector)
    requires
        x < 16,
    ensures
        ((0x3FF8u16 >> x) & 1u16 == 1u16) == (3 <= x && x <= 13),
{
}

proof fn lemma_bits_0c30(x: u16)
    by (bit_vector)
    requires
        x < 16,
    ensures
        ((0x0C30u16 >> x) & 1u16 == 1u16) == (x == 4 || x == 5 || x == 10 || x == 11),
{
}

proof fn lemma_bits_07e0(x: u16)
    by (bit_vector)
    requires
        x < 16,
    ensures
        ((0x07E0u16 >> x) & 1u16 == 1u16) == (5 <= x && x <= 10),
{
}

proof fn lemma_bits_03c0(x: u16)
    by (bit_vector)
    requires
        x < 16,
    ensures
        ((0x03C0u16 >> x) & 1u16 == 1u16) == (6 <= x && x <= 9),
{
}

proof fn lemma_bits_0180(x: u16)
    by (bit_vector)
    requires
        x < 16,
    ensures
        ((0x0180u16 >> x) & 1u16 == 1u16) == (x == 7 || x == 8),
{
}

/// The bitmap holds exactly the columns written out in `letter_a_columns`.
pub proof fn lemma_letter_a_columns(x: int, y: int)
    requires
        0 <= x < 16,
        0 <= y < 16,
    ensures
        letter_a_bit(x, y) == letter_a_columns(x, y),
{
    let b = x as u16;
    assert(b as int == x);
    if y == 0 || y == 15 {
        assert(LETTER_A[y] == 0x0000u16);
        lemma_bits_0000(b);
    } else if y == 1 || y == 2 {
        assert(LETTER_A[y] == 0x6006u16);
        lemma_bits_6006(b);
    } else if y == 3 || y == 4 {
        assert(LETTER_A[y] == 0x300Cu16);
        lemma_bits_300c(b);
    } else if y == 5 || y == 6 || y == 7 || y == 9 || y == 10 {
        assert(LETTER_A[y] == 0x1818u16);
        lemma_bits_1818(b);
    } else if y == 8 {
        assert(LETTER_A[y] == 0x3FF8u16);
        lemma_bits_3ff8(b);
    } else if y == 11 {
        assert(LETTER_A[y] == 0x0C30u16);
        lemma_bits_0c30(b);
    } else if y == 12 {
        assert(LETTER_A[y] == 0x07E0u16);
        lemma_bits_07e0(b);
    } else if y == 13 {
        assert(LETTER_A[y] == 0x03C0u16);
        lemma_bits_03c0(b);
    } else {
        assert(LETTER_A[y] == 0x0180u16);
        lemma_bits_0180(b);
    }
}

/// Number of set columns among the first `k` of row `y`.
pub open spec fn letter_a_row_count(y: int, k: int) -> int
    decreases k,
{
    if k <= 0 {
        0
    } else {
        letter_a_row_count(y, k - 1) + if letter_a_bit(k - 1, y) { 1int } else { 0int }
    }
}

/// Number of set cells in the first `k` rows of the bitmap.
pub open spec fn letter_a_count(k: int) -> int
    decreases k,
{
    if k <= 0 {
        0
    } else {
        letter_a_count(k - 1) + letter_a_row_count(k - 1, 16)
    }
}

proof fn lemma_row_count(y: int, n: int)
    requires
        0 <= y < 16,
        n == (if y == 1 || y == 2 || y == 3 || y == 4 || y == 5 || y == 6 || y == 7 || y == 9
            || y == 10 || y == 11 || y == 13 {
            4int
        } else if y == 8 {
            11int
        } else if y == 12 {
            6int
        } else if y == 14 {
            2int
        } else {
            0int
        }),
    ensures
        letter_a_row_count(y, 16) == n,
{
    assert forall|x: int| 0 <= x < 16 implies letter_a_bit(x, y) == letter_a_columns(x, y) by {
        lemma_letter_a_columns(x, y);
    }
    reveal_with_fuel(letter_a_row_count, 17);
}

/// The letter A's laws: nothing is set outside the 16 x 16 bitmap, the
/// bottom and top rows are empty, 63 cells are set in all, and every row but
/// the crossbar (row 8, columns 3 to 13) is mirror-symmetric about the
/// bitmap's vertical center line.
pub proof fn lemma_letter_a_laws()
    ensures
        forall|x: int, y: int| (x < 0 || x >= 16 || y < 0 || y >= 16) ==> !#[trigger] letter_a_bit(x, y),
        forall|x: int| 0 <= x < 16 ==> !#[trigger] letter_a_bit(x, 0) && !letter_a_bit(x, 15),
        letter_a_count(16) == 63,
        forall|x: int, y: int|
            0 <= x < 16 && 0 <= y < 16 && y != 8 ==> #[trigger] letter_a_bit(x, y) == letter_a_bit(
                15 - x,
                y,
            ),
{
    assert forall|x: int| 0 <= x < 16 implies !#[trigger] letter_a_bit(x, 0) && !letter_a_bit(
        x,
        15,
    ) by {
        lemma_letter_a_columns(x, 0);
        lemma_letter_a_columns(x, 15);
    }
    assert forall|x: int, y: int| 0 <= x < 16 && 0 <= y < 16 && y != 8 implies #[trigger] letter_a_bit(
        x,
        y,
    ) == letter_a_bit(15 - x, y) by {
        lemma_letter_a_columns(x, y);
        lemma_letter_a_columns(15 - x, y);
    }
    lemma_row_count(0, 0);
    lemma_row_count(1, 4);
    lemma_row_count(2, 4);
    lemma_row_count(3, 4);
    lemma_row_count(4, 4);
    lemma_row_count(5, 4);
    lemma_row_count(6, 4);
    lemma_row_count(7, 4);
    lemma_row_count(8, 11);
    lemma_row_count(9, 4);
    lemma_row_count(10, 4);
    lemma_row_count(11, 4);
    lemma_row_count(12, 6);
    lemma_row_count(13, 4);
    lemma_row_count(14, 2);
    lemma_row_count(15, 0);
    reveal_with_fuel(letter_a_count, 17);
}

/// `S`: squared distance of lattice point `(x, y, z)` from the grid center,
/// in half-spacing units.
pub open spec fn dist_sq_units(dims: [u32; 3], x: int, y: int, z: int) -> int {
    let cx = centered(x, dims[0] as int);
    let cy = centered(y, dims[1] as int);
    let cz = centered(z, dims[2] as int);
    cx * cx + cy * cy + cz * cz
}

/// The lattice point lies strictly inside the sphere's outer radius.
pub open spec fn inside_outer_radius(dims: [u32; 3], x: int, y: int, z: int) -> bool {
    let e = dims[0] - 1;
    25 * dist_sq_units(dims, x, y, z) < 4 * (e * e)
}

/// The lattice point lies strictly outside the shell's inner radius.
pub open spec fn outside_inner_radius(dims: [u32; 3], x: int, y: int, z: int) -> bool {
    let e = dims[0] - 1;
    625 * dist_sq_units(dims, x, y, z) > 49 * (e * e)
}

/// The lattice point belongs to `shape`.
pub open spec fn shape_active(shape: AuthoredShape, dims: [u32; 3], x: int, y: int, z: int) -> bool {
    match shape {
        AuthoredShape::Sphere => inside_outer_radius(dims, x, y, z),
        AuthoredShape::Shell => outside_inner_radius(dims, x, y, z) && inside_outer_radius(
            dims,
            x,
            y,
            z,
        ),
        AuthoredShape::LetterA => letter_a_bit(x, y),
    }
}

/// The look the pattern gives the cell at flat index `i`.
pub open spec fn authored_look(shape: AuthoredShape, dims: [u32; 3], i: int) -> Look {
    if shape_active(shape, dims, coord_x(dims, i), coord_y(dims, i), coord_z(dims, i)) {
        Look::AuthoredOn
    } else {
        Look::Hidden
    }
}

/// Column `x` of row `y` of the letter A is set. Anything outside the
/// 16 x 16 bitmap is off.
pub fn letter_a_active(x: u32, y: u32) -> (r: bool)
    ensures
        r == letter_a_bit(x as int, y as int),
{
    if x >= 16 || y >= 16 {
        return false;
    }
    let row: u16 = LETTER_A[y as usize];
    (row >> x) & 1 == 1
}

/// Square of a centered coordinate, which is at most `2^32` in magnitude.
fn square_units(c: i64) -> (r: i128)
    requires
        -0x1_0000_0000 <= c <= 0x1_0000_0000,
    ensures
        r == c * c,
        0 <= r <= 0x1_0000_0000_0000_0000,
{
    let w = c as i128;
    assert(0 <= w * w <= 0x1_0000_0000_0000_0000) by (nonlinear_arith)
        requires -0x1_0000_0000 <= w <= 0x1_0000_0000;
    w * w
}

/// Whether lattice point `(x, y, z)` belongs to `shape`.
fn cell_active(shape: AuthoredShape, dims: [u32; 3], x: u32, y: u32, z: u32) -> (r: bool)
    requires
        in_grid(dims, x as int, y as int, z as int),
    ensures
        r == shape_active(shape, dims, x as int, y as int, z as int),
{
    match shape {
        AuthoredShape::LetterA => letter_a_active(x, y),
        _ => {
            let cx: i64 = 2 * (x as i64) - (dims[0] as i64 - 1);
            let cy: i64 = 2 * (y as i64) - (dims[1] as i64 - 1);
            let cz: i64 = 2 * (z as i64) - (dims[2] as i64 - 1);
            let s: i128 = square_units(cx) + square_units(cy) + square_units(cz);
            let e: i64 = dims[0] as i64 - 1;
            let e2: i128 = square_units(e);
            let inside_outer = 25 * s < 4 * e2;
            match shape {
                AuthoredShape::Sphere => inside_outer,
                _ => 625 * s > 49 * e2 && inside_outer,
            }
        },
    }
}

/// Mirroring a lattice point through the grid center along `x` keeps it in
/// or out of the sphere.
pub proof fn lemma_sphere_mirror_x(dims: [u32; 3], x: int, y: int, z: int)
    requires
        in_grid(dims, x, y, z),
    ensures
        in_grid(dims, dims[0] - 1 - x, y, z),
        shape_active(AuthoredShape::Sphere, dims, dims[0] - 1 - x, y, z) == shape_active(
            AuthoredShape::Sphere,
            dims,
            x,
            y,
            z,
        ),
{
    let m = dims[0] - 1 - x;
    assert(centered(m, dims[0] as int) == -centered(x, dims[0] as int));
    assert(centered(m, dims[0] as int) * centered(m, dims[0] as int) == centered(
        x,
        dims[0] as int,
    ) * centered(x, dims[0] as int)) by (nonlinear_arith)
        requires centered(m, dims[0] as int) == -centered(x, dims[0] as int);
}

/// What each authored shape is, for every grid extent and lattice point,
/// with `X = 2x - (d0 - 1)`, `Y = 2y - (d1 - 1)`, `Z = 2z - (d2 - 1)` the
/// point's offsets from the grid center in half-spacing units:
/// - the sphere holds the points closer to the center than 0.4 of the
///   half-extent `(d0 - 1) / 2` along x: `25 (X^2 + Y^2 + Z^2) < 4 (d0 - 1)^2`;
/// - the shell is the sphere without the ball of 0.7 times that same
///   radius, measured with the same extent `d0`:
///   `625 (X^2 + Y^2 + Z^2) > 49 (d0 - 1)^2`;
/// - the letter A stands at the origin corner of the x/y plane in every
///   `z` layer, unshifted whatever the extent: `(x, y)` is on exactly when
///   it is one of the letter's written-out columns.
pub proof fn lemma_authored_shapes(dims: [u32; 3], x: int, y: int, z: int)
    ensures
        shape_active(AuthoredShape::Sphere, dims, x, y, z) == (25 * ((2 * x - (dims[0] - 1)) * (2
            * x - (dims[0] - 1)) + (2 * y - (dims[1] - 1)) * (2 * y - (dims[1] - 1)) + (2 * z - (
        dims[2] - 1)) * (2 * z - (dims[2] - 1))) < 4 * ((dims[0] - 1) * (dims[0] - 1))),
        shape_active(AuthoredShape::Shell, dims, x, y, z) == (shape_active(
            AuthoredShape::Sphere,
            dims,
            x,
            y,
            z,
        ) && 625 * ((2 * x - (dims[0] - 1)) * (2 * x - (dims[0] - 1)) + (2 * y - (dims[1] - 1)) * (
        2 * y - (dims[1] - 1)) + (2 * z - (dims[2] - 1)) * (2 * z - (dims[2] - 1))) > 49 * ((
        dims[0] - 1) * (dims[0] - 1))),
        shape_active(AuthoredShape::LetterA, dims, x, y, z) == (0 <= x < 16 && 0 <= y < 16
            && letter_a_columns(x, y)),
{
    if 0 <= x < 16 && 0 <= y < 16 {
        lemma_letter_a_columns(x, y);
    }
}

/// The letter A does not depend on the grid's extent nor on the layer:
/// two grids of any extents show the same columns in every layer.
pub proof fn lemma_letter_a_independent_of_extent(
    dims1: [u32; 3],
    dims2: [u32; 3],
    x: int,
    y: int,
    z1: int,
    z2: int,
)
    ensures
        shape_active(AuthoredShape::LetterA, dims1, x, y, z1) == shape_active(
            AuthoredShape::LetterA,
            dims2,
            x,
            y,
            z2,
        ),
{
    lemma_authored_shapes(dims1, x, y, z1);
    lemma_authored_shapes(dims2, x, y, z2);
}

/// Every cell of the shell is a cell of the sphere.
pub proof fn lemma_shell_within_sphere(dims: [u32; 3], x: int, y: int, z: int)
    ensures
        shape_active(AuthoredShape::Shell, dims, x, y, z) ==> shape_active(
            AuthoredShape::Sphere,
            dims,
            x,
            y,
            z,
        ),
{
}

impl Authored {
    /// The pattern this influencer draws.
    pub closed spec fn shape_of(self) -> AuthoredShape {
        self.shape
    }

    /// The pattern has already been written.
    pub closed spec fn is_initialized(self) -> bool {
        self.initialized
    }

    /// An influencer for `shape` that has not written anything yet.
    pub fn new(shape: AuthoredShape) -> (r: Self)
        ensures
            r.shape_of() == shape,
            !r.is_initialized(),
    {
        Authored { shape, initialized: false }
    }

    /// Whether the pattern has already been written.
    pub fn initialized(&self) -> (r: bool)
        ensures
            r == self.is_initialized(),
    {
        self.initialized
    }

    /// On the first call, write the pattern into `grid`: every cell inside
    /// the shape is switched on, every other cell hidden; positions are kept.
    /// Every later call leaves the grid untouched.
    pub fn step(&mut self, grid: &mut CellGrid)
        requires
            old(grid).wf(),
            old(self).is_initialized() || old(grid).dims[0] >= 1,
        ensures
            final(self).shape_of() == old(self).shape_of(),
            final(self).is_initialized(),
            final(grid).dims == old(grid).dims,
            old(self).is_initialized() ==> final(grid).cells@ == old(grid).cells@,
            !old(self).is_initialized() ==> {
                &&& final(grid).wf()
                &&& final(grid).cells@.len() == old(grid).cells@.len()
                &&& forall|i: int|
                    0 <= i < final(grid).cells@.len() ==> #[trigger] final(grid).cells@[i] == (
                    GridCell {
                        position: old(grid).cells@[i].position,
                        look: authored_look(old(self).shape_of(), old(grid).dims, i),
                    })
                &&& forall|x: int, y: int, z: int|
                    in_grid(old(grid).dims, x, y, z) ==> (#[trigger] final(grid).cells@[flat_index(
                        old(grid).dims,
                        x,
                        y,
                        z,
                    )].look == Look::AuthoredOn) == shape_active(
                        old(self).shape_of(),
                        old(grid).dims,
                        x,
                        y,
                        z,
                    )
            },
    {
        if self.initialized {
            return;
        }
        self.initialized = true;
        let shape = self.shape;
        let d = grid.dims;
        let n = grid.cells.len();
        let ghost g0 = grid.cells@;
        let mut i: usize = 0;
        let mut x: u32 = 0;
        while x < d[0]
            invariant
                grid.dims == d,
                grid.cells@.len() == n,
                n == grid_len(d),
                grid.wf(),
                x <= d[0],
                i == x * d[1] * d[2],
                forall|j: int|
                    0 <= j < i ==> #[trigger] grid.cells@[j] == (GridCell {
                        position: g0[j].position,
                        look: authored_look(shape, d, j),
                    }),
                forall|j: int| i <= j < n ==> #[trigger] grid.cells@[j] == g0[j],
            decreases d[0] - x,
        {
            let mut y: u32 = 0;
            while y < d[1]
                invariant
                    grid.dims == d,
                    grid.cells@.len() == n,
                    n == grid_len(d),
                    grid.wf(),
                    x < d[0],
                    y <= d[1],
                    i == x * d[1] * d[2] + y * d[2],
                    forall|j: int|
                        0 <= j < i ==> #[trigger] grid.cells@[j] == (GridCell {
                            position: g0[j].position,
                            look: authored_look(shape, d, j),
                        }),
                    forall|j: int| i <= j < n ==> #[trigger] grid.cells@[j] == g0[j],
                decreases d[1] - y,
            {
                let mut z: u32 = 0;
                while z < d[2]
                    invariant
                        grid.dims == d,
                        grid.cells@.len() == n,
                        n == grid_len(d),
                        grid.wf(),
                        x < d[0],
                        y < d[1],
                        z <= d[2],
                        i == x * d[1] * d[2] + y * d[2] + z,
                        forall|j: int|
                            0 <= j < i ==> #[trigger] grid.cells@[j] == (GridCell {
                                position: g0[j].position,
                                look: authored_look(shape, d, j),
                            }),
                        forall|j: int| i <= j < n ==> #[trigger] grid.cells@[j] == g0[j],
                    decreases d[2] - z,
                {
                    proof {
                        lemma_flat_index_bounds(d, x as int, y as int, z as int);
                        lemma_coords_of_flat_index(d, x as int, y as int, z as int);
                    }
                    let active = cell_active(shape, d, x, y, z);
                    let pos = grid.cells[i].position;
                    let look = if active {
                        Look::AuthoredOn
                    } else {
                        Look::Hidden
                    };
                    grid.cells.set(i, GridCell { position: pos, look });
                    i = i + 1;
                    z = z + 1;
                }
                proof {
                    assert(x * d[1] * d[2] + y * d[2] + d[2] == x * d[1] * d[2] + (y + 1) * d[2])
                        by (nonlinear_arith);
                }
                y = y + 1;
            }
            proof {
                assert(x * d[1] * d[2] + d[1] * d[2] == (x + 1) * d[1] * d[2])
                    by (nonlinear_arith);
            }
            x = x + 1;
        }
        proof {
            assert forall|x: int, y: int, z: int| in_grid(d, x, y, z) implies (
            #[trigger] grid.cells@[flat_index(d, x, y, z)].look == Look::AuthoredOn) == shape_active(
                shape,
                d,
                x,
                y,
                z,
            ) by {
                lemma_flat_index_bounds(d, x, y, z);
                lemma_coords_of_flat_index(d, x, y, z);
                let j = flat_index(d, x, y, z);
                assert(grid.cells@[j] == (GridCell {
                    position: g0[j].position,
                    look: authored_look(shape, d, j),
                }));
            }
        }
    }
}

} // verus!
