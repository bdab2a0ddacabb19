//! Topology of the UV sphere mesh.
//!
//! The mesh has `stacks + 1` rings of `sectors + 1` vertices each, from the
//! top pole down; vertex `(i, j)` (ring `i`, sector `j`) is stored at
//! `i * (sectors + 1) + j`. Every cell of the `stacks x sectors` grid is a
//! quad drawn as two triangles. The vertex positions themselves are
//! trigonometry and are computed by the renderer.

use vstd::prelude::*;

verus! {

/// Number of vertices of the mesh.
pub open spec fn sphere_vertex_count(stacks: int, sectors: int) -> int {
    (stacks + 1) * (sectors + 1)
}

/// Quad `(i, j)` occupies the six entries starting at `6 * (i * sectors + j)`
/// of `indices`: triangles `(a, b, a + 1)` and `(a + 1, b, b + 1)`, where
/// `a = i * (sectors + 1) + j` is its top-left vertex and `b = a + sectors + 1`
/// the one below it.
pub open spec fn quad_at(indices: Seq<u32>, sectors: int, i: int, j: int) -> bool {
    let q = 6 * (i * sectors + j);
    let a = i * (sectors + 1) + j;
    let b = a + sectors + 1;
    &&& indices[q] == a
    &&& indices[q + 1] == b
    &&& indices[q + 2] == a + 1
    &&& indices[q + 3] == a + 1
    &&& indices[q + 4] == b
    &&& indices[q + 5] == b + 1
}

proof fn lemma_quad_order(sectors: int, i1: int, j1: int, i2: int, j2: int)
    requires
        0 <= j1 < sectors,
        0 <= j2,
        0 <= i1,
        (i1 < i2) || (i1 == i2 && j1 < j2),
    ensures
        i1 * sectors + j1 < i2 * sectors + j2,
{
    if i1 < i2 {
        assert(i1 * sectors + j1 < i2 * sectors + j2) by (nonlinear_arith)
            requires 0 <= j1 < sectors, 0 <= j2, i1 < i2;
    }
}

/// Index buffer of the UV sphere with `stacks` rings of quads and `sectors`
/// quads per ring: two triangles per quad, quads in row-major order.
/// The vertex and index counts are computed in `u32`, so they must fit there.
pub fn build_sphere_indices(stacks: u32, sectors: u32) -> (indices: Vec<u32>)
    requires
        sphere_vertex_count(stacks as int, sectors as int) <= u32::MAX,
        stacks * sectors * 6 <= u32::MAX,
    ensures
        indices@.len() == 6 * stacks * sectors,
        forall|i: int, j: int|
            0 <= i < stacks && 0 <= j < sectors ==> #[trigger] quad_at(
                indices@,
                sectors as int,
                i,
                j,
            ),
        forall|k: int|
            0 <= k < indices@.len() ==> #[trigger] indices@[k] < sphere_vertex_count(
                stacks as int,
                sectors as int,
            ),
{
    let ghost vc = sphere_vertex_count(stacks as int, sectors as int);
    let cap = stacks * sectors * 6;
    let mut indices: Vec<u32> = Vec::with_capacity(cap as usize);
    let mut i: u32 = 0;
    while i < stacks
        invariant
            i <= stacks,
            vc == sphere_vertex_count(stacks as int, sectors as int),
            vc <= u32::MAX,
            indices@.len() == 6 * (i * sectors),
            forall|i2: int, j2: int|
                0 <= i2 < i && 0 <= j2 < sectors ==> #[trigger] quad_at(
                    indices@,
                    sectors as int,
                    i2,
                    j2,
                ),
            forall|k: int| 0 <= k < indices@.len() ==> #[trigger] indices@[k] < vc,
        decreases stacks - i,
    {
        let mut j: u32 = 0;
        while j < sectors
            invariant
                i < stacks,
                j <= sectors,
                vc == sphere_vertex_count(stacks as int, sectors as int),
                vc <= u32::MAX,
                indices@.len() == 6 * (i * sectors + j),
                forall|i2: int, j2: int|
                    (0 <= i2 < i && 0 <= j2 < sectors) || (i2 == i && 0 <= j2 < j)
                        ==> #[trigger] quad_at(indices@, sectors as int, i2, j2),
                forall|k: int| 0 <= k < indices@.len() ==> #[trigger] indices@[k] < vc,
            decreases sectors - j,
        {
            proof {
                let (ii, jj, s, t) = (i as int, j as int, sectors as int, stacks as int);
                assert(ii * (s + 1) + jj + s + 1 + 1 < (t + 1) * (s + 1)) by (nonlinear_arith)
                    requires 0 <= ii < t, 0 <= jj < s;
            }
            let a = i * (sectors + 1) + j;
            let b = a + sectors + 1;
            let ghost old_indices = indices@;
            indices.push(a);
            indices.push(b);
            indices.push(a + 1);
            indices.push(a + 1);
            indices.push(b);
            indices.push(b + 1);
            proof {
                let (ii, jj, s) = (i as int, j as int, sectors as int);
                assert(old_indices.len() == 6 * (ii * s + jj));
                assert forall|i2: int, j2: int|
                    (0 <= i2 < i && 0 <= j2 < sectors) || (i2 == i && 0 <= j2 < j + 1)
                        implies #[trigger] quad_at(indices@, sectors as int, i2, j2) by {
                    if i2 == ii && j2 == jj {
                    } else {
                        lemma_quad_order(s, i2, j2, ii, jj);
                        assert(quad_at(old_indices, s, i2, j2));
                        assert(0 <= i2 * s + j2) by (nonlinear_arith)
                            requires 0 <= i2, 0 <= j2, 0 <= s;
                    }
                }
                assert(6 * (ii * s + jj) + 6 == 6 * (ii * s + (jj + 1)));
            }
            j = j + 1;
        }
        proof {
            let (ii, s) = (i as int, sectors as int);
            assert(ii * s + s == (ii + 1) * s) by (nonlinear_arith);
        }
        i = i + 1;
    }
    proof {
        assert(6 * (stacks as int * sectors as int) == 6 * stacks * sectors) by (nonlinear_arith);
    }
    indices
}

} // verus!
