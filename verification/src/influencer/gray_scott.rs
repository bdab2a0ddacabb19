//! Integer side of the 3D Gray-Scott reaction-diffusion influencer: field
//! indexing, the periodic 6-neighbor Laplacian stencil, the seed block at
//! the grid center, and the deterministic noise hash.
//!
//! The two concentration fields U and V are laid out like the cell grid
//! (`z` fastest). Boundaries are periodic: the neighbor past the last cell
//! along an axis is the first one.

use vstd::prelude::*;

use vstd::arithmetic::div_mod::lemma_fundamental_div_mod_converse;

use crate::cell::{
    MAX_GRID_CELLS, flat_index, grid_len, in_grid, lemma_flat_index_bounds,
};

verus! {

/// Next coordinate along an axis of extent `n`, wrapping around.
pub open spec fn wrap_next(c: int, n: int) -> int {
    (c + 1) % n
}

/// Previous coordinate along an axis of extent `n`, wrapping around.
pub open spec fn wrap_prev(c: int, n: int) -> int {
    (c + n - 1) % n
}

/// Field index of `(x, y, z)`. Computed in `u32`, so the index (and each
/// partial product) must fit there.
pub fn idx3(x: u32, y: u32, z: u32, dims: [u32; 3]) -> (r: usize)
    requires
        x * dims[1] <= u32::MAX,
        flat_index(dims, x as int, y as int, z as int) <= u32::MAX,
    ensures
        r == flat_index(dims, x as int, y as int, z as int),
{
    proof {
        let (a, b, c) = (x as int, dims[1] as int, dims[2] as int);
        assert(0 <= a * b * c && 0 <= y * c) by (nonlinear_arith)
            requires 0 <= a, 0 <= b, 0 <= c, 0 <= y;
    }
    (x * dims[1] * dims[2] + y * dims[2] + z) as usize
}

/// Coordinate after `c` along an axis of extent `n`, wrapping.
fn next_coord(c: u32, n: u32) -> (r: u32)
    requires
        c < n,
    ensures
        r == wrap_next(c as int, n as int),
        r < n,
{
    (c + 1) % n
}

/// Coordinate before `c` along an axis of extent `n`, wrapping. Computed as
/// `(c + n - 1) % n` in `u32`, so `c + n` must fit there.
fn prev_coord(c: u32, n: u32) -> (r: u32)
    requires
        c < n,
        c + n <= u32::MAX,
    ensures
        r == wrap_prev(c as int, n as int),
        r < n,
{
    (c + n - 1) % n
}

/// Field indices of the 6-neighbor Laplacian stencil at `(x, y, z)`, with
/// periodic boundaries, in the order `+x, -x, +y, -y, +z, -z, center`.
/// The Laplacian is the sum over the first six minus six times the center.
pub fn laplacian_stencil(x: u32, y: u32, z: u32, dims: [u32; 3]) -> (r: [usize; 7])
    requires
        in_grid(dims, x as int, y as int, z as int),
        grid_len(dims) <= MAX_GRID_CELLS,
        x + dims[0] <= u32::MAX,
        y + dims[1] <= u32::MAX,
        z + dims[2] <= u32::MAX,
    ensures
        r[0] == flat_index(dims, wrap_next(x as int, dims[0] as int), y as int, z as int),
        r[1] == flat_index(dims, wrap_prev(x as int, dims[0] as int), y as int, z as int),
        r[2] == flat_index(dims, x as int, wrap_next(y as int, dims[1] as int), z as int),
        r[3] == flat_index(dims, x as int, wrap_prev(y as int, dims[1] as int), z as int),
        r[4] == flat_index(dims, x as int, y as int, wrap_next(z as int, dims[2] as int)),
        r[5] == flat_index(dims, x as int, y as int, wrap_prev(z as int, dims[2] as int)),
        r[6] == flat_index(dims, x as int, y as int, z as int),
        forall|k: int| 0 <= k < 7 ==> r[k] < grid_len(dims),
{
    let nx = dims[0];
    let ny = dims[1];
    let nz = dims[2];
    let xp = next_coord(x, nx);
    let xm = prev_coord(x, nx);
    let yp = next_coord(y, ny);
    let ym = prev_coord(y, ny);
    let zp = next_coord(z, nz);
    let zm = prev_coord(z, nz);
    proof {
        lemma_flat_index_bounds(dims, xp as int, y as int, z as int);
        lemma_flat_index_bounds(dims, xm as int, y as int, z as int);
        lemma_flat_index_bounds(dims, x as int, yp as int, z as int);
        lemma_flat_index_bounds(dims, x as int, ym as int, z as int);
        lemma_flat_index_bounds(dims, x as int, y as int, zp as int);
        lemma_flat_index_bounds(dims, x as int, y as int, zm as int);
        lemma_flat_index_bounds(dims, x as int, y as int, z as int);
    }
    let r = [
        idx3(xp, y, z, dims),
        idx3(xm, y, z, dims),
        idx3(x, yp, z, dims),
        idx3(x, ym, z, dims),
        idx3(x, y, zp, dims),
        idx3(x, y, zm, dims),
        idx3(x, y, z, dims),
    ];
    r
}

/// Stepping forward then back along a periodic axis returns to the start,
/// and so does stepping back then forward: each cell is the `-` neighbor of
/// its `+` neighbor.
pub proof fn lemma_wrap_inverse(c: int, n: int)
    requires
        0 <= c < n,
    ensures
        0 <= wrap_next(c, n) < n,
        0 <= wrap_prev(c, n) < n,
        wrap_prev(wrap_next(c, n), n) == c,
        wrap_next(wrap_prev(c, n), n) == c,
{
    // wrap_next
    if c + 1 == n {
        lemma_fundamental_div_mod_converse(c + 1, n, 1, 0);
        lemma_fundamental_div_mod_converse(n - 1, n, 0, n - 1);
    } else {
        lemma_fundamental_div_mod_converse(c + 1, n, 0, c + 1);
        lemma_fundamental_div_mod_converse(c + 1 + n - 1, n, 1, c);
    }
    // wrap_prev
    if c == 0 {
        lemma_fundamental_div_mod_converse(n - 1, n, 0, n - 1);
        lemma_fundamental_div_mod_converse(n, n, 1, 0);
    } else {
        lemma_fundamental_div_mod_converse(c + n - 1, n, 1, c - 1);
        lemma_fundamental_div_mod_converse(c, n, 0, c);
    }
}

/// Coordinate `k` (0, 1 or 2) of the seed block along an axis of extent
/// `n`: `n / 2 + k - 1`, floored at 0 and capped at `n - 1`.
pub open spec fn seed_coord(n: int, k: int) -> int {
    let t = n / 2 + k - 1;
    let t = if t < 0 { 0 } else { t };
    if t < n - 1 { t } else { n - 1 }
}

/// The seed block is three adjacent cells per axis around the center
/// `n / 2`: its middle coordinate is `n / 2`, each next coordinate is the
/// same or one more, every coordinate lies in the grid, and when the axis
/// has at least 3 cells the block is exactly `n / 2 - 1, n / 2, n / 2 + 1`.
pub proof fn lemma_seed_block_consecutive(n: int)
    requires
        n >= 1,
    ensures
        seed_coord(n, 1) == n / 2,
        forall|k: int| 0 <= k < 3 ==> 0 <= #[trigger] seed_coord(n, k) < n,
        forall|k: int|
            0 <= k < 2 ==> seed_coord(n, k) <= #[trigger] seed_coord(n, k + 1) <= seed_coord(n, k)
                + 1,
        seed_coord(n, 0) == if n / 2 >= 1 { n / 2 - 1 } else { 0 },
        seed_coord(n, 2) == if n / 2 + 1 <= n - 1 { n / 2 + 1 } else { n - 1 },
        n >= 3 ==> forall|k: int| 0 <= k < 3 ==> #[trigger] seed_coord(n, k) == n / 2 + k - 1,
{
    assert(forall|k: int| 0 <= k < 3 ==> #[trigger] seed_coord(n, k) == seed_coord(n, k));
    assert(seed_coord(n, 0) == if n / 2 >= 1 { n / 2 - 1 } else { 0 });
    assert(seed_coord(n, 1) == n / 2);
    assert(seed_coord(n, 2) == if n / 2 + 1 <= n - 1 { n / 2 + 1 } else { n - 1 });
}

fn seed_coord_exec(n: u32, k: u32) -> (r: u32)
    requires
        n >= 1,
        k < 3,
    ensures
        r == seed_coord(n as int, k as int),
        r < n,
{
    let t = (n / 2 + k).saturating_sub(1);
    if t < n - 1 {
        t
    } else {
        n - 1
    }
}

/// Field indices of the 3 x 3 x 3 seed block around the grid center
/// `(dims[0] / 2, dims[1] / 2, dims[2] / 2)`, clamped into the grid, in
/// `dx`-major, `dz`-minor order. The field is seeded there with U = 0.25 and
/// V = 0.5 (everywhere else U = 1, V = 0).
pub fn seed_cells(dims: [u32; 3]) -> (r: Vec<usize>)
    requires
        dims[0] >= 1,
        dims[1] >= 1,
        dims[2] >= 1,
        grid_len(dims) <= MAX_GRID_CELLS,
    ensures
        r@.len() == 27,
        forall|dx: int, dy: int, dz: int|
            0 <= dx < 3 && 0 <= dy < 3 && 0 <= dz < 3 ==> #[trigger] r@[9 * dx + 3 * dy + dz]
                == flat_index(
                dims,
                seed_coord(dims[0] as int, dx),
                seed_coord(dims[1] as int, dy),
                seed_coord(dims[2] as int, dz),
            ),
        forall|k: int| 0 <= k < 27 ==> #[trigger] r@[k] < grid_len(dims),
        dims[0] >= 3 && dims[1] >= 3 && dims[2] >= 3 ==> forall|dx: int, dy: int, dz: int|
            0 <= dx < 3 && 0 <= dy < 3 && 0 <= dz < 3 ==> #[trigger] r@[9 * dx + 3 * dy + dz]
                == flat_index(
                dims,
                dims[0] / 2 + dx - 1,
                dims[1] / 2 + dy - 1,
                dims[2] / 2 + dz - 1,
            ),
{
    proof {
        lemma_seed_block_consecutive(dims[0] as int);
        lemma_seed_block_consecutive(dims[1] as int);
        lemma_seed_block_consecutive(dims[2] as int);
    }
    let mut r: Vec<usize> = Vec::new();
    let mut dx: u32 = 0;
    while dx < 3
        invariant
            dx <= 3,
            dims[0] >= 1 && dims[1] >= 1 && dims[2] >= 1,
            grid_len(dims) <= MAX_GRID_CELLS,
            r@.len() == 9 * dx,
            forall|a: int, b: int, c: int|
                0 <= a < dx && 0 <= b < 3 && 0 <= c < 3 ==> #[trigger] r@[9 * a + 3 * b + c]
                    == flat_index(
                    dims,
                    seed_coord(dims[0] as int, a),
                    seed_coord(dims[1] as int, b),
                    seed_coord(dims[2] as int, c),
                ),
            forall|k: int| 0 <= k < r@.len() ==> #[trigger] r@[k] < grid_len(dims),
        decreases 3 - dx,
    {
        let mut dy: u32 = 0;
        while dy < 3
            invariant
                dx < 3,
                dy <= 3,
                dims[0] >= 1 && dims[1] >= 1 && dims[2] >= 1,
                grid_len(dims) <= MAX_GRID_CELLS,
                r@.len() == 9 * dx + 3 * dy,
                forall|a: int, b: int, c: int|
                    (0 <= a < dx && 0 <= b < 3 && 0 <= c < 3) || (a == dx && 0 <= b < dy && 0
                        <= c < 3) ==> #[trigger] r@[9 * a + 3 * b + c] == flat_index(
                        dims,
                        seed_coord(dims[0] as int, a),
                        seed_coord(dims[1] as int, b),
                        seed_coord(dims[2] as int, c),
                    ),
                forall|k: int| 0 <= k < r@.len() ==> #[trigger] r@[k] < grid_len(dims),
            decreases 3 - dy,
        {
            let mut dz: u32 = 0;
            while dz < 3
                invariant
                    dx < 3,
                    dy < 3,
                    dz <= 3,
                    dims[0] >= 1 && dims[1] >= 1 && dims[2] >= 1,
                    grid_len(dims) <= MAX_GRID_CELLS,
                    r@.len() == 9 * dx + 3 * dy + dz,
                    forall|a: int, b: int, c: int|
                        (0 <= a < dx && 0 <= b < 3 && 0 <= c < 3) || (a == dx && 0 <= b < dy && 0
                            <= c < 3) || (a == dx && b == dy && 0 <= c < dz) ==> #[trigger] r@[9
                            * a + 3 * b + c] == flat_index(
                            dims,
                            seed_coord(dims[0] as int, a),
                            seed_coord(dims[1] as int, b),
                            seed_coord(dims[2] as int, c),
                        ),
                    forall|k: int| 0 <= k < r@.len() ==> #[trigger] r@[k] < grid_len(dims),
                decreases 3 - dz,
            {
                let x = seed_coord_exec(dims[0], dx);
                let y = seed_coord_exec(dims[1], dy);
                let z = seed_coord_exec(dims[2], dz);
                proof {
                    lemma_flat_index_bounds(dims, x as int, y as int, z as int);
                }
                let i = idx3(x, y, z, dims);
                r.push(i);
                dz = dz + 1;
            }
            dy = dy + 1;
        }
        dx = dx + 1;
    }
    r
}

/// `v` rotated left by `k` bits, `0 < k < 32`.
pub open spec fn rotl(v: u32, k: u32) -> u32 {
    (v << k) | (v >> (32u32 - k) as u32)
}

fn rotl_exec(v: u32, k: u32) -> (r: u32)
    requires
        0 < k < 32,
    ensures
        r == rotl(v, k),
{
    (v << k) | (v >> (32 - k))
}

/// The Murmur3-style mixing of `(x, y, z)` under `seed`, before the low 24
/// bits are kept.
pub open spec fn mix_hash(x: u32, y: u32, z: u32, seed: u32) -> u32 {
    let v = seed ^ x.wrapping_mul(0x9e3779b9);
    let v = rotl(v, 5).wrapping_mul(0x85ebca6b);
    let v = v ^ y.wrapping_mul(0xc2b2ae35);
    let v = rotl(v, 7).wrapping_mul(0xcc9e2d51);
    let v = v ^ z.wrapping_mul(0x6b3a36f5);
    let v = rotl(v, 11).wrapping_mul(0x1b873593);
    let v = v ^ (v >> 16u32);
    let v = v.wrapping_mul(0x85ebca6b);
    let v = v ^ (v >> 13u32);
    let v = v.wrapping_mul(0xc2b2ae35);
    v ^ (v >> 16u32)
}

/// Deterministic 24-bit noise for lattice point `(x, y, z)` under `seed`:
/// the low 24 bits of the mixing hash. Divided by `2^24` it is a sample in
/// `[0, 1)`.
pub fn noise_bits(x: u32, y: u32, z: u32, seed: u32) -> (r: u32)
    ensures
        r == mix_hash(x, y, z, seed) & 0x00FF_FFFFu32,
        r < 0x0100_0000,
{
    let mut v = seed;
    v = v ^ x.wrapping_mul(0x9e3779b9);
    v = rotl_exec(v, 5).wrapping_mul(0x85ebca6b);
    v = v ^ y.wrapping_mul(0xc2b2ae35);
    v = rotl_exec(v, 7).wrapping_mul(0xcc9e2d51);
    v = v ^ z.wrapping_mul(0x6b3a36f5);
    v = rotl_exec(v, 11).wrapping_mul(0x1b873593);
    v = v ^ (v >> 16);
    v = v.wrapping_mul(0x85ebca6b);
    v = v ^ (v >> 13);
    v = v.wrapping_mul(0xc2b2ae35);
    v = v ^ (v >> 16);
    let r = v & 0x00FF_FFFF;
    assert(r < 0x0100_0000) by (bit_vector)
        requires r == v & 0x00FF_FFFFu32;
    r
}

} // verus!
