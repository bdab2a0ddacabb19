//! Layout of per-cell data for upload in uniform buffers, where every array
//! element occupies a four-lane vector.

use vstd::prelude::*;

verus! {

/// Pack the first `count` values four to a vector: value `4k + l` goes to
/// lane `l` of vector `k`. Used for the per-cursor strengths and crowd
/// biases, 360 values in 90 vectors.
pub fn pack_quads<T: Copy>(values: &Vec<T>, count: usize) -> (r: Vec<[T; 4]>)
    requires
        count % 4 == 0,
        count <= values@.len(),
    ensures
        r@.len() == count / 4,
        forall|k: int, l: int|
            0 <= k < count / 4 && 0 <= l < 4 ==> #[trigger] r@[k][l] == values@[4 * k + l],
{
    let n = count / 4;
    let mut r: Vec<[T; 4]> = Vec::with_capacity(n);
    let mut k: usize = 0;
    while k < n
        invariant
            n == count / 4,
            count % 4 == 0,
            count <= values@.len(),
            k <= n,
            r@.len() == k,
            forall|k2: int, l: int|
                0 <= k2 < k && 0 <= l < 4 ==> #[trigger] r@[k2][l] == values@[4 * k2 + l],
        decreases n - k,
    {
        let b = 4 * k;
        let q = [values[b], values[b + 1], values[b + 2], values[b + 3]];
        r.push(q);
        k = k + 1;
    }
    r
}

/// Widen the first `count` three-lane vectors to four lanes, the fourth
/// lane holding `fill`. Used for the cursor directions.
pub fn pad_to_quads<T: Copy>(values: &Vec<[T; 3]>, count: usize, fill: T) -> (r: Vec<[T; 4]>)
    requires
        count <= values@.len(),
    ensures
        r@.len() == count,
        forall|i: int, l: int|
            0 <= i < count && 0 <= l < 3 ==> #[trigger] r@[i][l] == values@[i][l],
        forall|i: int| 0 <= i < count ==> #[trigger] r@[i][3] == fill,
{
    let mut r: Vec<[T; 4]> = Vec::with_capacity(count);
    let mut i: usize = 0;
    while i < count
        invariant
            count <= values@.len(),
            i <= count,
            r@.len() == i,
            forall|i2: int, l: int|
                0 <= i2 < i && 0 <= l < 3 ==> #[trigger] r@[i2][l] == values@[i2][l],
            forall|i2: int| 0 <= i2 < i ==> #[trigger] r@[i2][3] == fill,
        decreases count - i,
    {
        let v = values[i];
        r.push([v[0], v[1], v[2], fill]);
        i = i + 1;
    }
    r
}

} // verus!
