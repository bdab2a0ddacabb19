//! Grid initialization: placing every cell at its lattice point, and
//! switching on the single center cell.

use vstd::prelude::*;

use crate::cell::{
    CellGrid, GridCell, Look, coord_x, coord_y, coord_z, flat_index, grid_len, in_grid,
    is_lattice_position, lattice_position, lemma_coords_of_flat_index, lemma_flat_index_bounds,
    lemma_flat_index_of_coords,
};

verus! {

/// Cell `c`, stored at flat index `i`, sits at the position of its own
/// lattice point.
pub open spec fn placed_at(c: GridCell, dims: [u32; 3], i: int) -> bool {
    is_lattice_position(c.position, dims, coord_x(dims, i), coord_y(dims, i), coord_z(dims, i))
}

/// Flat index of the center cell `(dims[0] / 2, dims[1] / 2, dims[2] / 2)`.
pub open spec fn center_index(dims: [u32; 3]) -> int {
    flat_index(dims, (dims[0] / 2) as int, (dims[1] / 2) as int, (dims[2] / 2) as int)
}

/// Assign each cell's position from its `(x, y, z)` lattice index. Looks are
/// left as they were.
pub fn place_cells(grid: &mut CellGrid)
    requires
        old(grid).wf(),
    ensures
        final(grid).wf(),
        final(grid).dims == old(grid).dims,
        final(grid).cells@.len() == old(grid).cells@.len(),
        forall|i: int|
            0 <= i < final(grid).cells@.len() ==> #[trigger] placed_at(
                final(grid).cells@[i],
                final(grid).dims,
                i,
            ),
        forall|x: int, y: int, z: int|
            in_grid(final(grid).dims, x, y, z) ==> is_lattice_position(
                #[trigger] final(grid).cells@[flat_index(final(grid).dims, x, y, z)].position,
                final(grid).dims,
                x,
                y,
                z,
            ),
        forall|i: int|
            0 <= i < final(grid).cells@.len() ==> #[trigger] final(grid).cells@[i].look
                == old(grid).cells@[i].look,
{
    let d = grid.dims;
    let ghost n = grid.cells@.len();
    let mut i: usize = 0;
    let mut x: u32 = 0;
    while x < d[0]
        invariant
            grid.dims == d,
            grid.cells@.len() == n,
            n == grid_len(d),
            grid.wf(),
            x <= d[0],
            i == x * d[1] * d[2],
            forall|j: int| 0 <= j < i ==> #[trigger] placed_at(grid.cells@[j], d, j),
            forall|j: int| 0 <= j < n ==> #[trigger] grid.cells@[j].look == old(grid).cells@[j].look,
        decreases d[0] - x,
    {
        let mut y: u32 = 0;
        while y < d[1]
            invariant
                grid.dims == d,
                grid.cells@.len() == n,
                n == grid_len(d),
                grid.wf(),
                x < d[0],
                y <= d[1],
                i == x * d[1] * d[2] + y * d[2],
                forall|j: int| 0 <= j < i ==> #[trigger] placed_at(grid.cells@[j], d, j),
                forall|j: int|
                    0 <= j < n ==> #[trigger] grid.cells@[j].look == old(grid).cells@[j].look,
            decreases d[1] - y,
        {
            let mut z: u32 = 0;
            while z < d[2]
                invariant
                    grid.dims == d,
                    grid.cells@.len() == n,
                    n == grid_len(d),
                    grid.wf(),
                    x < d[0],
                    y < d[1],
                    z <= d[2],
                    i == x * d[1] * d[2] + y * d[2] + z,
                    forall|j: int| 0 <= j < i ==> #[trigger] placed_at(grid.cells@[j], d, j),
                    forall|j: int|
                        0 <= j < n ==> #[trigger] grid.cells@[j].look == old(grid).cells@[j].look,
                decreases d[2] - z,
            {
                proof {
                    lemma_flat_index_bounds(d, x as int, y as int, z as int);
                    lemma_coords_of_flat_index(d, x as int, y as int, z as int);
                }
                let p = lattice_position(d, x, y, z);
                let mut c = grid.cells[i];
                c.position = p;
                grid.cells.set(i, c);
                i = i + 1;
                z = z + 1;
            }
            proof {
                assert(x * d[1] * d[2] + y * d[2] + d[2] == x * d[1] * d[2] + (y + 1) * d[2])
                    by (nonlinear_arith);
            }
            y = y + 1;
        }
        proof {
            assert(x * d[1] * d[2] + d[1] * d[2] == (x + 1) * d[1] * d[2]) by (nonlinear_arith);
        }
        x = x + 1;
    }
    proof {
        assert forall|x: int, y: int, z: int| in_grid(d, x, y, z) implies is_lattice_position(
            #[trigger] grid.cells@[flat_index(d, x, y, z)].position,
            d,
            x,
            y,
            z,
        ) by {
            lemma_flat_index_bounds(d, x, y, z);
            lemma_coords_of_flat_index(d, x, y, z);
            assert(placed_at(grid.cells@[flat_index(d, x, y, z)], d, flat_index(d, x, y, z)));
        }
    }
}

/// Switch on the single center cell with the default visible parameters,
/// keeping its position. Every other cell is left as it was.
pub fn activate_center_cell(grid: &mut CellGrid)
    requires
        old(grid).wf(),
        old(grid).cells@.len() > 0,
    ensures
        final(grid).wf(),
        final(grid).dims == old(grid).dims,
        final(grid).cells@ == old(grid).cells@.update(
            center_index(old(grid).dims),
            GridCell {
                position: old(grid).cells@[center_index(old(grid).dims)].position,
                look: Look::Visible,
            },
        ),
{
    let cx = grid.dims[0] / 2;
    let cy = grid.dims[1] / 2;
    let cz = grid.dims[2] / 2;
    proof {
        let d = grid.dims;
        assert(d[0] > 0 && d[1] > 0 && d[2] > 0) by (nonlinear_arith)
            requires d[0] * d[1] * d[2] > 0;
    }
    let idx = grid.idx(cx, cy, cz);
    let pos = grid.cells[idx].position;
    grid.cells.set(idx, GridCell { position: pos, look: Look::Visible });
}

/// After placement no two cells share a position: the cell at flat index
/// `i` sits at a point of the lattice that no other index holds.
pub proof fn lemma_placed_positions_distinct(grid: &CellGrid, i: int, j: int)
    requires
        grid.wf(),
        forall|k: int| 0 <= k < grid.cells@.len() ==> #[trigger] placed_at(grid.cells@[k], grid.dims, k),
        0 <= i < grid.cells@.len(),
        0 <= j < grid.cells@.len(),
        i != j,
    ensures
        grid.cells@[i].position != grid.cells@[j].position,
{
    let d = grid.dims;
    lemma_flat_index_of_coords(d, i);
    lemma_flat_index_of_coords(d, j);
    assert(placed_at(grid.cells@[i], d, i));
    assert(placed_at(grid.cells@[j], d, j));
    if grid.cells@[i].position == grid.cells@[j].position {
        assert(coord_x(d, i) == coord_x(d, j));
        assert(coord_y(d, i) == coord_y(d, j));
        assert(coord_z(d, i) == coord_z(d, j));
    }
}

} // verus!
