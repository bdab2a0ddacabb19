//! The cell grid: a flat array of cells laid out over a 3D lattice.
//!
//! Cells are stored in row-major order with `z` varying fastest and `x`
//! slowest, so lattice point `(x, y, z)` lives at index
//! `x * dims[1] * dims[2] + y * dims[2] + z`.
//!
//! Positions are kept exactly, in half-spacing units relative to the grid
//! center: lattice point `(x, y, z)` sits at
//! `(2x - (dims[0] - 1), 2y - (dims[1] - 1), 2z - (dims[2] - 1))`.
//! Multiplying by half the cell spacing gives the world-space center
//! `(vec3(x, y, z) - (dims - 1) / 2) * spacing` that the renderer draws.

use vstd::prelude::*;
use vstd::arithmetic::div_mod::lemma_fundamental_div_mod_converse;

verus! {

/// Number of surface cursors per cell; a divisor of 360 by design.
pub const CURSORS_PER_CELL: usize = 360;

/// Number of cells in the four-cell scene.
pub const NUM_CELLS: usize = 4;

/// The cursor count divides 360, so each cursor owns a whole number of
/// degrees, and it is a multiple of 4, so the strengths pack exactly into
/// four-wide GPU vectors.
pub proof fn lemma_cursor_count_layout()
    ensures
        360usize % CURSORS_PER_CELL == 0,
        CURSORS_PER_CELL % 4 == 0,
{
}

/// The largest number of cells a grid may hold: every flat index must fit in
/// a `u32`, the type in which indices are computed.
pub const MAX_GRID_CELLS: u64 = 0x1_0000_0000;

/// What a cell currently shows. The renderer turns each look into the float
/// parameters it draws with.
#[derive(Clone, Copy, Debug, PartialEq, Eq, Structural)]
pub enum Look {
    /// Zero opacity: not drawn.
    Hidden,
    /// The default visible parameter set (a soft colored blob).
    Visible,
    /// Switched on by an authored pattern: the cell keeps its colors and
    /// gets the authored "on" opacity.
    AuthoredOn,
}

/// One cell of the grid.
#[derive(Clone, Copy, Debug, PartialEq, Eq)]
pub struct GridCell {
    /// Center in half-spacing units, relative to the grid center.
    pub position: [i64; 3],
    pub look: Look,
}

/// A 3D lattice of cells, stored flat.
#[derive(Debug)]
pub struct CellGrid {
    /// Extent along x, y and z.
    pub dims: [u32; 3],
    /// `dims[0] * dims[1] * dims[2]` cells, `z` fastest.
    pub cells: Vec<GridCell>,
}

/// Number of cells in a grid of extent `dims`.
pub open spec fn grid_len(dims: [u32; 3]) -> int {
    dims[0] * dims[1] * dims[2]
}

/// `(x, y, z)` is a lattice point of a grid of extent `dims`.
pub open spec fn in_grid(dims: [u32; 3], x: int, y: int, z: int) -> bool {
    0 <= x < dims[0] && 0 <= y < dims[1] && 0 <= z < dims[2]
}

/// Flat index of lattice point `(x, y, z)`.
pub open spec fn flat_index(dims: [u32; 3], x: int, y: int, z: int) -> int {
    x * dims[1] * dims[2] + y * dims[2] + z
}

/// Lattice coordinates stored at flat index `i`.
pub open spec fn coord_x(dims: [u32; 3], i: int) -> int {
    i / (dims[1] * dims[2])
}

pub open spec fn coord_y(dims: [u32; 3], i: int) -> int {
    (i / (dims[2] as int)) % (dims[1] as int)
}

pub open spec fn coord_z(dims: [u32; 3], i: int) -> int {
    i % (dims[2] as int)
}

/// Coordinate `c` of an axis of extent `n`, centered, in half-spacing units.
pub open spec fn centered(c: int, n: int) -> int {
    2 * c - (n - 1)
}

/// `p` is the position of lattice point `(x, y, z)`.
pub open spec fn is_lattice_position(p: [i64; 3], dims: [u32; 3], x: int, y: int, z: int) -> bool {
    &&& p[0] == centered(x, dims[0] as int)
    &&& p[1] == centered(y, dims[1] as int)
    &&& p[2] == centered(z, dims[2] as int)
}

impl CellGrid {
    /// The cell count matches the extent, and every flat index fits in a `u32`.
    pub open spec fn wf(&self) -> bool {
        &&& self.cells@.len() == grid_len(self.dims)
        &&& grid_len(self.dims) <= MAX_GRID_CELLS
    }

    /// A grid of extent `dims` whose cells are all hidden and not yet placed
    /// (position zero). `None` when the cell count exceeds `MAX_GRID_CELLS`
    /// or does not fit in memory indices.
    pub fn new(dims: [u32; 3]) -> (r: Option<CellGrid>)
        ensures
            r is Some <==> grid_len(dims) <= MAX_GRID_CELLS && grid_len(dims) <= usize::MAX,
            r matches Some(g) ==> {
                &&& g.wf()
                &&& g.dims == dims
                &&& forall|i: int| 0 <= i < g.cells@.len() ==> #[trigger] g.cells@[i] == (GridCell {
                    position: [0i64, 0i64, 0i64],
                    look: Look::Hidden,
                })
            },
    {
        let a: u128 = dims[0] as u128;
        let b: u128 = dims[1] as u128;
        let c: u128 = dims[2] as u128;
        assert(a * b <= 0xffff_ffff_ffff_ffff_ffff_ffff) by (nonlinear_arith)
            requires a <= 0xffff_ffff, b <= 0xffff_ffff;
        let ab: u128 = a * b;
        assert(ab * c <= 0xffff_ffff_ffff_ffff_ffff_ffff_ffff_ffff) by (nonlinear_arith)
            requires ab <= 0xffff_ffff_ffff_ffff_ffff_ffff, c <= 0xffff_ffff;
        let total: u128 = ab * c;
        if total > MAX_GRID_CELLS as u128 || total > usize::MAX as u128 {
            return None;
        }
        let count = total as usize;
        let cell = GridCell { position: [0i64, 0i64, 0i64], look: Look::Hidden };
        let mut cells: Vec<GridCell> = Vec::with_capacity(count);
        let mut i: usize = 0;
        while i < count
            invariant
                i <= count,
                cells@.len() == i,
                forall|j: int| 0 <= j < i ==> #[trigger] cells@[j] == cell,
            decreases count - i,
        {
            cells.push(cell);
            i = i + 1;
        }
        Some(CellGrid { dims, cells })
    }

    /// Number of cells.
    pub fn len(&self) -> (r: usize)
        ensures
            r == self.cells@.len(),
    {
        self.cells.len()
    }

    /// Flat index of lattice point `(x, y, z)`.
    pub fn idx(&self, x: u32, y: u32, z: u32) -> (r: usize)
        requires
            self.wf(),
            in_grid(self.dims, x as int, y as int, z as int),
        ensures
            r == flat_index(self.dims, x as int, y as int, z as int),
            r < self.cells@.len(),
    {
        proof { lemma_flat_index_bounds(self.dims, x as int, y as int, z as int); }
        let r = x * self.dims[1] * self.dims[2] + y * self.dims[2] + z;
        r as usize
    }

    /// Position of lattice point `(x, y, z)`, in half-spacing units.
    pub fn world_pos(&self, x: u32, y: u32, z: u32) -> (p: [i64; 3])
        ensures
            is_lattice_position(p, self.dims, x as int, y as int, z as int),
    {
        lattice_position(self.dims, x, y, z)
    }
}

/// Position of lattice point `(x, y, z)` of a grid of extent `dims`, in
/// half-spacing units.
pub fn lattice_position(dims: [u32; 3], x: u32, y: u32, z: u32) -> (p: [i64; 3])
    ensures
        is_lattice_position(p, dims, x as int, y as int, z as int),
{
    let px: i64 = 2 * (x as i64) - (dims[0] as i64 - 1);
    let py: i64 = 2 * (y as i64) - (dims[1] as i64 - 1);
    let pz: i64 = 2 * (z as i64) - (dims[2] as i64 - 1);
    [px, py, pz]
}

/// A lattice point's flat index lies in `[0, grid_len(dims))`.
pub proof fn lemma_flat_index_bounds(dims: [u32; 3], x: int, y: int, z: int)
    requires
        in_grid(dims, x, y, z),
    ensures
        0 <= flat_index(dims, x, y, z) < grid_len(dims),
        flat_index(dims, x, y, z) == (x * dims[1] + y) * dims[2] + z,
        0 <= x * dims[1] <= x * dims[1] * dims[2] <= flat_index(dims, x, y, z),
        0 <= y * dims[2] <= flat_index(dims, x, y, z),
{
    let d1 = dims[1] as int;
    let d2 = dims[2] as int;
    let d0 = dims[0] as int;
    assert(x * d1 * d2 + y * d2 + z == (x * d1 + y) * d2 + z) by (nonlinear_arith);
    assert(0 <= x * d1 + y < d0 * d1) by (nonlinear_arith)
        requires 0 <= x < d0, 0 <= y < d1;
    assert(0 <= (x * d1 + y) * d2 + z < d0 * d1 * d2) by (nonlinear_arith)
        requires 0 <= x * d1 + y < d0 * d1, 0 <= z < d2;
    assert(0 <= x * d1 <= x * d1 * d2) by (nonlinear_arith)
        requires 0 <= x, 0 <= d1, 1 <= d2;
    assert(0 <= y * d2) by (nonlinear_arith)
        requires 0 <= y, 0 <= d2;
}

/// Reading the coordinates back from a lattice point's flat index gives
/// the lattice point.
pub proof fn lemma_coords_of_flat_index(dims: [u32; 3], x: int, y: int, z: int)
    requires
        in_grid(dims, x, y, z),
    ensures
        coord_x(dims, flat_index(dims, x, y, z)) == x,
        coord_y(dims, flat_index(dims, x, y, z)) == y,
        coord_z(dims, flat_index(dims, x, y, z)) == z,
{
    let d1 = dims[1] as int;
    let d2 = dims[2] as int;
    let i = flat_index(dims, x, y, z);
    lemma_flat_index_bounds(dims, x, y, z);
    let q = x * d1 + y;
    lemma_fundamental_div_mod_converse(i, d2, q, z);
    lemma_fundamental_div_mod_converse(q, d1, x, y);
    assert(i == x * (d1 * d2) + (y * d2 + z)) by (nonlinear_arith)
        requires i == x * d1 * d2 + y * d2 + z;
    assert(0 <= y * d2 + z < d1 * d2) by (nonlinear_arith)
        requires 0 <= y < d1, 0 <= z < d2;
    lemma_fundamental_div_mod_converse(i, d1 * d2, x, y * d2 + z);
}

/// Every flat index of the grid holds exactly one lattice point: its
/// coordinates lie in the grid and index it again.
pub proof fn lemma_flat_index_of_coords(dims: [u32; 3], i: int)
    requires
        0 <= i < grid_len(dims),
    ensures
        in_grid(dims, coord_x(dims, i), coord_y(dims, i), coord_z(dims, i)),
        flat_index(dims, coord_x(dims, i), coord_y(dims, i), coord_z(dims, i)) == i,
{
    let d0 = dims[0] as int;
    let d1 = dims[1] as int;
    let d2 = dims[2] as int;
    assert(d0 > 0 && d1 > 0 && d2 > 0) by (nonlinear_arith)
        requires 0 <= i < d0 * d1 * d2, d0 >= 0, d1 >= 0, d2 >= 0;
    let q = i / d2;
    let z = i % d2;
    let x = q / d1;
    let y = q % d1;
    assert(i == q * d2 + z && 0 <= z < d2) by (nonlinear_arith)
        requires q == i / d2, z == i % d2, d2 > 0;
    assert(q == x * d1 + y && 0 <= y < d1) by (nonlinear_arith)
        requires x == q / d1, y == q % d1, d1 > 0;
    assert(0 <= q < d0 * d1) by (nonlinear_arith)
        requires i == q * d2 + z, 0 <= z < d2, 0 <= i < d0 * d1 * d2, d2 > 0;
    assert(0 <= x < d0) by (nonlinear_arith)
        requires q == x * d1 + y, 0 <= y < d1, 0 <= q < d0 * d1, d1 > 0;
    assert(i == x * d1 * d2 + y * d2 + z) by (nonlinear_arith)
        requires i == q * d2 + z, q == x * d1 + y;
    lemma_coords_of_flat_index(dims, x, y, z);
}

/// Two lattice points share a flat index only if they are the same point.
pub proof fn lemma_flat_index_injective(
    dims: [u32; 3],
    x1: int, y1: int, z1: int,
    x2: int, y2: int, z2: int,
)
    requires
        in_grid(dims, x1, y1, z1),
        in_grid(dims, x2, y2, z2),
        flat_index(dims, x1, y1, z1) == flat_index(dims, x2, y2, z2),
    ensures
        x1 == x2 && y1 == y2 && z1 == z2,
{
    lemma_coords_of_flat_index(dims, x1, y1, z1);
    lemma_coords_of_flat_index(dims, x2, y2, z2);
}

} // verus!
