//! Depth sort for back-to-front alpha compositing.
//!
//! Splats are drawn farthest first. In right-handed view space a visible
//! point has negative depth, and "more negative" is farther, so splats are
//! sorted ascending by depth. The renderer hands each splat's depth in as a
//! `u32` key that orders the same way the depths do.

use vstd::prelude::*;

verus! {

/// Sign bit of an `f32` bit pattern.
pub open spec fn sign_set(bits: u32) -> bool {
    bits >= 0x8000_0000
}

/// The value an `f32` bit pattern stands for in sign-magnitude order: the
/// magnitude bits, negated when the sign bit is set. For two finite floats
/// this order is the numeric order (IEEE 754 stores magnitudes so that
/// their bit patterns order like the magnitudes).
pub open spec fn sign_magnitude(bits: u32) -> int {
    if sign_set(bits) {
        -((bits - 0x8000_0000) as int)
    } else {
        bits as int
    }
}

/// Order key of a depth given by its `f32` bit pattern: negative values
/// have their bits inverted, non-negative ones get the sign bit set, so
/// that unsigned key order follows sign-magnitude order.
pub open spec fn order_key(bits: u32) -> u32 {
    if sign_set(bits) {
        (0xFFFF_FFFFu32 - bits) as u32
    } else {
        (bits + 0x8000_0000u32) as u32
    }
}

/// Depth key of the `f32` depth whose bit pattern is `bits`.
pub fn depth_order_key(bits: u32) -> (key: u32)
    ensures
        key == order_key(bits),
{
    if bits >= 0x8000_0000 {
        0xFFFF_FFFF - bits
    } else {
        bits + 0x8000_0000
    }
}

/// Keys preserve strict sign-magnitude order: a depth that is numerically
/// smaller (farther) gets a smaller key, so sorting by key sorts by depth.
pub proof fn lemma_order_key_monotonic(a: u32, b: u32)
    requires
        sign_magnitude(a) < sign_magnitude(b),
    ensures
        order_key(a) < order_key(b),
{
}

/// Distinct bit patterns get distinct keys. (The two zeros, `-0.0` and
/// `+0.0`, are numerically equal and so may come out in either order; the
/// negative zero gets the smaller key.)
pub proof fn lemma_order_key_injective(a: u32, b: u32)
    requires
        order_key(a) == order_key(b),
    ensures
        a == b,
{
}

/// A projected splat with its depth key. `gpu` is whatever is uploaded for
/// drawing; `depth_key` orders splats by view-space depth (smaller key =
/// farther from the camera).
#[derive(Clone, Copy, Debug)]
pub struct SplatWithDepth<G> {
    pub gpu: G,
    pub depth_key: u32,
}

/// Depth keys never decrease along `s`.
pub open spec fn sorted_by_depth<G>(s: Seq<SplatWithDepth<G>>) -> bool {
    forall|i: int, j: int| 0 <= i <= j < s.len() ==> s[i].depth_key <= s[j].depth_key
}

/// Copy of `v[lo..hi]`.
fn copy_range<G: Copy>(v: &Vec<SplatWithDepth<G>>, lo: usize, hi: usize) -> (r: Vec<
    SplatWithDepth<G>,
>)
    requires
        lo <= hi <= v@.len(),
    ensures
        r@ == v@.subrange(lo as int, hi as int),
{
    let mut r: Vec<SplatWithDepth<G>> = Vec::with_capacity(hi - lo);
    let mut k: usize = lo;
    while k < hi
        invariant
            lo <= k <= hi <= v@.len(),
            r@ == v@.subrange(lo as int, k as int),
        decreases hi - k,
    {
        r.push(v[k]);
        k = k + 1;
        assert(r@ =~= v@.subrange(lo as int, k as int));
    }
    r
}

/// Merge two depth-sorted runs into one.
fn merge<G: Copy>(a: &Vec<SplatWithDepth<G>>, b: &Vec<SplatWithDepth<G>>) -> (r: Vec<
    SplatWithDepth<G>,
>)
    requires
        sorted_by_depth(a@),
        sorted_by_depth(b@),
        a@.len() + b@.len() <= usize::MAX,
    ensures
        sorted_by_depth(r@),
        r@.len() == a@.len() + b@.len(),
        r@.to_multiset() == a@.to_multiset().add(b@.to_multiset()),
{
    broadcast use vstd::seq_lib::group_to_multiset_ensures;
    broadcast use vstd::multiset::group_multiset_axioms;
    let na = a.len();
    let nb = b.len();
    let mut r: Vec<SplatWithDepth<G>> = Vec::with_capacity(na + nb);
    let mut i: usize = 0;
    let mut j: usize = 0;
    while i < na || j < nb
        invariant
            na == a@.len(),
            nb == b@.len(),
            na + nb <= usize::MAX,
            sorted_by_depth(a@),
            sorted_by_depth(b@),
            i <= na,
            j <= nb,
            r@.len() == i + j,
            sorted_by_depth(r@),
            r@.to_multiset() == a@.take(i as int).to_multiset().add(
                b@.take(j as int).to_multiset(),
            ),
            r@.len() > 0 && i < na ==> r@.last().depth_key <= a@[i as int].depth_key,
            r@.len() > 0 && j < nb ==> r@.last().depth_key <= b@[j as int].depth_key,
        decreases na + nb - i - j,
    {
        let take_a = j >= nb || (i < na && a[i].depth_key <= b[j].depth_key);
        let ghost ma = a@.take(i as int).to_multiset();
        let ghost mb = b@.take(j as int).to_multiset();
        let ghost r0 = r@;
        if take_a {
            let e = a[i];
            r.push(e);
            proof {
                assert(a@.take(i as int + 1) =~= a@.take(i as int).push(e));
                assert(r@ =~= r0.push(e));
                vstd::seq_lib::to_multiset_build(r0, e);
                vstd::seq_lib::to_multiset_build(a@.take(i as int), e);
                assert(ma.insert(e).add(mb) =~= ma.add(mb).insert(e));
            }
            i = i + 1;
        } else {
            let e = b[j];
            r.push(e);
            proof {
                assert(b@.take(j as int + 1) =~= b@.take(j as int).push(e));
                assert(r@ =~= r0.push(e));
                vstd::seq_lib::to_multiset_build(r0, e);
                vstd::seq_lib::to_multiset_build(b@.take(j as int), e);
                assert(ma.add(mb.insert(e)) =~= ma.add(mb).insert(e));
            }
            j = j + 1;
        }
    }
    assert(a@.take(na as int) =~= a@);
    assert(b@.take(nb as int) =~= b@);
    r
}

/// A depth-sorted copy of `v`.
fn merge_sort<G: Copy>(v: &Vec<SplatWithDepth<G>>) -> (r: Vec<SplatWithDepth<G>>)
    ensures
        sorted_by_depth(r@),
        r@.len() == v@.len(),
        r@.to_multiset() == v@.to_multiset(),
    decreases v@.len(),
{
    let n = v.len();
    if n <= 1 {
        let r = copy_range(v, 0, n);
        assert(r@ =~= v@);
        return r;
    }
    let mid = n / 2;
    let left = copy_range(v, 0, mid);
    let right = copy_range(v, mid, n);
    let sl = merge_sort(&left);
    let sr = merge_sort(&right);
    let r = merge(&sl, &sr);
    proof {
        assert(v@ =~= v@.subrange(0, mid as int) + v@.subrange(mid as int, n as int));
        vstd::seq_lib::lemma_multiset_commutative(
            v@.subrange(0, mid as int),
            v@.subrange(mid as int, n as int),
        );
    }
    r
}

/// Sort `splats` back to front (ascending depth key) in place and return
/// their GPU data in draw order (a merge sort, `O(n log n)`). Splats with
/// equal keys may come out in any order.
pub fn sort_back_to_front<G: Copy>(splats: &mut Vec<SplatWithDepth<G>>) -> (out: Vec<G>)
    ensures
        final(splats)@.to_multiset() == old(splats)@.to_multiset(),
        final(splats)@.len() == old(splats)@.len(),
        sorted_by_depth(final(splats)@),
        out@.len() == final(splats)@.len(),
        forall|i: int| 0 <= i < out@.len() ==> #[trigger] out@[i] == final(splats)@[i].gpu,
{
    let sorted = merge_sort(splats);
    *splats = sorted;
    let n = splats.len();
    let mut out: Vec<G> = Vec::with_capacity(n);
    let mut k: usize = 0;
    while k < n
        invariant
            splats@.len() == n,
            k <= n,
            out@.len() == k,
            forall|m: int| 0 <= m < k ==> #[trigger] out@[m] == splats@[m].gpu,
        decreases n - k,
    {
        out.push(splats[k].gpu);
        k = k + 1;
    }
    out
}

} // verus!
