//! How a frame's pixels are handed out to workers and put back together.
//!
//! Pixels are numbered row-major (`y * width + x`). A random permutation of
//! those numbers spreads expensive regions of the picture over all workers;
//! worker `k` takes a contiguous band of positions in that permutation, and the
//! bands are concatenated in worker order when the results come back.

use vstd::prelude::*;
use vstd::set_lib::{lemma_int_range, lemma_subset_equality, set_int_range};
use crate::random::{lemma_rearranged_distinct, shuffle_in_place};

verus! {

/// `s` lists each of `0..n` exactly once.
pub open spec fn is_permutation(s: Seq<usize>, n: nat) -> bool {
    &&& s.len() == n
    &&& forall|i: int| 0 <= i < s.len() ==> (#[trigger] s[i]) < n
    &&& s.no_duplicates()
}

/// First row of the band that worker `num` of `total` renders.
pub open spec fn band_begin(height: nat, total: nat, num: nat) -> nat {
    (height / total) * num
}

/// One past the last row of that band; the last worker also takes the rows
/// left over by the division.
pub open spec fn band_end(height: nat, total: nat, num: nat) -> nat {
    if num + 1 == total {
        height
    } else {
        band_begin(height, total, num) + height / total
    }
}

/// Column and row of pixel number `p` in a row-major raster of width `width`.
pub open spec fn coords_of(p: nat, width: nat) -> (usize, usize) {
    ((p % width) as usize, (p / width) as usize)
}

/// The rows `[begin, end)` of worker `thread_num` among `thread_total` workers
/// over a frame of `height` rows.
pub fn row_span(height: usize, thread_total: usize, thread_num: usize) -> (r: (usize, usize))
    requires
        0 < thread_total,
        thread_num < thread_total,
    ensures
        r.0 == band_begin(height as nat, thread_total as nat, thread_num as nat),
        r.1 == band_end(height as nat, thread_total as nat, thread_num as nat),
        r.0 <= r.1 <= height,
{
    let line = height / thread_total;
    proof {
        lemma_band_in_frame(height as nat, thread_total as nat, thread_num as nat);
    }
    let begin = line * thread_num;
    let end = if thread_num + 1 == thread_total {
        height
    } else {
        begin + line
    };
    (begin, end)
}

proof fn lemma_band_in_frame(height: nat, total: nat, num: nat)
    requires
        0 < total,
        num < total,
    ensures
        band_begin(height, total, num) + height / total <= height,
        band_begin(height, total, num) <= band_end(height, total, num) <= height,
{
    let line = height / total;
    assert(line * total <= height) by (nonlinear_arith)
        requires
            line == height / total,
            0 < total,
    ;
    assert(line * num + line <= line * total) by (nonlinear_arith)
        requires
            num < total,
    ;
}

/// The bands of all workers tile the frame: the first starts at row 0, each
/// one starts where the one before it ends, and the last ends at `height`.
pub proof fn lemma_bands_tile_frame(height: nat, total: nat)
    requires
        0 < total,
    ensures
        band_begin(height, total, 0) == 0,
        band_end(height, total, (total - 1) as nat) == height,
        forall|k: nat|
            k + 1 < total ==> #[trigger] band_end(height, total, k) == band_begin(
                height,
                total,
                k + 1,
            ),
        forall|k: nat|
            k < total ==> band_begin(height, total, k) <= #[trigger] band_end(height, total, k)
                <= height,
{
    assert(band_begin(height, total, 0) == 0) by (nonlinear_arith);
    assert forall|k: nat| k + 1 < total implies #[trigger] band_end(height, total, k)
        == band_begin(height, total, k + 1) by {
        let line = height / total;
        assert(line * k + line == line * (k + 1)) by (nonlinear_arith);
    }
    assert forall|k: nat| k < total implies band_begin(height, total, k)
        <= #[trigger] band_end(height, total, k) <= height by {
        lemma_band_in_frame(height, total, k);
    }
}

/// Column and row of pixel number `map_cnt` in a raster `width` pixels wide.
pub fn pixel_coords(map_cnt: usize, width: usize) -> (r: (usize, usize))
    requires
        0 < width,
    ensures
        r == coords_of(map_cnt as nat, width as nat),
{
    (map_cnt % width, map_cnt / width)
}

/// `0, 1, ..., n - 1`.
pub fn identity_order(n: usize) -> (r: Vec<usize>)
    ensures
        r@ == Seq::new(n as nat, |i: int| i as usize),
{
    let mut r: Vec<usize> = Vec::new();
    let mut i: usize = 0;
    while i < n
        invariant
            i <= n,
            r@ == Seq::new(i as nat, |j: int| j as usize),
        decreases n - i,
    {
        r.push(i);
        i = i + 1;
        assert(r@ =~= Seq::new(i as nat, |j: int| j as usize));
    }
    r
}

/// A random order in which to visit the `width * height` pixels of a frame:
/// every pixel number occurs exactly once.
pub fn shuffled_pixel_order(width: usize, height: usize) -> (r: Vec<usize>)
    requires
        width * height <= usize::MAX,
    ensures
        is_permutation(r@, (width * height) as nat),
{
    let n = width * height;
    let mut order = identity_order(n);
    let ghost before = order@;
    shuffle_in_place(&mut order);
    proof {
        lemma_shuffle_keeps_permutation(before, order@, n as nat);
    }
    order
}

proof fn lemma_shuffle_keeps_permutation(before: Seq<usize>, after: Seq<usize>, n: nat)
    requires
        before == Seq::new(n, |i: int| i as usize),
        n <= usize::MAX,
        after.to_multiset() == before.to_multiset(),
    ensures
        is_permutation(after, n),
{
    lemma_rearranged_distinct(before, after);
    assert forall|i: int| 0 <= i < after.len() implies (#[trigger] after[i]) < n by {
        assert(before.contains(after[i]));
        let j = choose|j: int| 0 <= j < before.len() && before[j] == after[i];
        assert(before[j] == j as usize);
    }
}

/// `p` occurs in `s`.
pub open spec fn listed(s: Seq<usize>, p: int) -> bool {
    exists|k: int| 0 <= k < s.len() && #[trigger] s[k] as int == p
}

/// A permutation of `0..n` reaches every number below `n`.
pub proof fn lemma_permutation_covers(s: Seq<usize>, n: nat)
    requires
        is_permutation(s, n),
    ensures
        forall|p: int| 0 <= p < n ==> #[trigger] listed(s, p),
{
    broadcast use vstd::set::group_set_axioms;

    let t = s.map_values(|x: usize| x as int);
    assert(t.no_duplicates()) by {
        assert forall|i: int, j: int| 0 <= i < t.len() && 0 <= j < t.len() && i != j implies t[i]
            != t[j] by {
            assert(s[i] != s[j]);
        }
    }
    t.unique_seq_to_set();
    lemma_int_range(0, n as int);
    assert(t.to_set().subset_of(set_int_range(0, n as int))) by {
        assert forall|x: int| t.to_set().contains(x) implies set_int_range(0, n as int).contains(
            x,
        ) by {
            assert(t.contains(x));
            let k = choose|k: int| 0 <= k < t.len() && t[k] == x;
            assert(s[k] < n);
        }
    }
    lemma_subset_equality(t.to_set(), set_int_range(0, n as int));
    assert forall|p: int| 0 <= p < n implies #[trigger] listed(s, p) by {
        assert(set_int_range(0, n as int).contains(p));
        assert(t.to_set().contains(p));
        assert(t.contains(p));
        let k = choose|k: int| 0 <= k < t.len() && t[k] == p;
        assert(s[k] as int == p);
    }
}

/// The pixels that the worker owning positions `[begin_row * width,
/// end_row * width)` of `order` renders, as (column, row) pairs.
pub fn worker_pixels(order: &Vec<usize>, width: usize, begin_row: usize, end_row: usize) -> (r: Vec<
    (usize, usize),
>)
    requires
        0 < width,
        begin_row <= end_row,
        end_row * width <= order@.len(),
    ensures
        r@.len() == (end_row - begin_row) * width,
        forall|k: int|
            0 <= k < r@.len() ==> #[trigger] r@[k] == coords_of(
                order@[begin_row * width + k] as nat,
                width as nat,
            ),
{
    let len = order.len();
    proof {
        assert(end_row * width <= len);
        assert(begin_row * width <= end_row * width) by (nonlinear_arith)
            requires
                begin_row <= end_row,
        ;
        assert((end_row - begin_row) * width == end_row * width - begin_row * width)
            by (nonlinear_arith);
    }
    let first = begin_row * width;
    let last = end_row * width;
    let mut r: Vec<(usize, usize)> = Vec::new();
    let mut cnt = first;
    while cnt < last
        invariant
            0 < width,
            first <= cnt <= last,
            last <= order@.len(),
            first == begin_row * width,
            r@.len() == cnt - first,
            forall|k: int|
                0 <= k < r@.len() ==> #[trigger] r@[k] == coords_of(
                    order@[first + k] as nat,
                    width as nat,
                ),
        decreases last - cnt,
    {
        let p = pixel_coords(order[cnt], width);
        r.push(p);
        cnt = cnt + 1;
    }
    r
}

/// Position `p` of `raster` holds the result that was computed for it.
pub open spec fn filled_from(
    order: Seq<usize>,
    computed: Seq<[u8; 3]>,
    raster: Seq<[u8; 3]>,
    p: int,
) -> bool {
    exists|k: int| 0 <= k < order.len() && #[trigger] order[k] as int == p && raster[p] == computed[k]
}

/// Puts the results back in raster order: `computed[k]` is the colour of pixel
/// `order[k]`, and lands at that position of the returned raster.
pub fn place_pixels(order: &Vec<usize>, computed: &Vec<[u8; 3]>) -> (r: Vec<[u8; 3]>)
    requires
        is_permutation(order@, order@.len()),
        computed@.len() == order@.len(),
    ensures
        r@.len() == order@.len(),
        forall|k: int| 0 <= k < order@.len() ==> r@[#[trigger] order@[k] as int] == computed@[k],
        forall|p: int| 0 <= p < order@.len() ==> #[trigger] filled_from(order@, computed@, r@, p),
{
    let n = order.len();
    let mut r: Vec<[u8; 3]> = Vec::new();
    let mut i: usize = 0;
    while i < n
        invariant
            i <= n,
            r@.len() == i,
        decreases n - i,
    {
        r.push([0u8, 0u8, 0u8]);
        i = i + 1;
    }
    let mut k: usize = 0;
    while k < n
        invariant
            n == order@.len(),
            n == computed@.len(),
            k <= n,
            r@.len() == n,
            is_permutation(order@, n as nat),
            forall|j: int| 0 <= j < k ==> r@[#[trigger] order@[j] as int] == computed@[j],
        decreases n - k,
    {
        let pos = order[k];
        r.set(pos, computed[k]);
        proof {
            assert forall|j: int| 0 <= j < k + 1 implies r@[#[trigger] order@[j] as int]
                == computed@[j] by {
                if j < k {
                    assert(order@[j] != order@[k as int]);
                }
            }
        }
        k = k + 1;
    }
    proof {
        lemma_permutation_covers(order@, n as nat);
        assert forall|p: int| 0 <= p < order@.len() implies #[trigger] filled_from(
            order@,
            computed@,
            r@,
            p,
        ) by {
            assert(listed(order@, p));
            let k = choose|k: int| 0 <= k < order@.len() && #[trigger] order@[k] as int == p;
            assert(r@[order@[k] as int] == computed@[k]);
        }
    }
    r
}

/// The contents of each band, as sequences.
pub open spec fn band_views(parts: Seq<Vec<[u8; 3]>>) -> Seq<Seq<[u8; 3]>> {
    parts.map_values(|v: Vec<[u8; 3]>| v@)
}

/// The workers' results joined in worker order.
pub fn concat_bands(parts: Vec<Vec<[u8; 3]>>) -> (r: Vec<[u8; 3]>)
    ensures
        r@ == band_views(parts@).flatten(),
{
    let ghost total = band_views(parts@).flatten();
    let mut rest = parts;
    let mut out: Vec<[u8; 3]> = Vec::new();
    assert(out@ + band_views(rest@).flatten() =~= total);
    while rest.len() > 0
        invariant
            out@ + band_views(rest@).flatten() == total,
        decreases rest@.len(),
    {
        let ghost before = rest@;
        let mut band = rest.remove(0);
        proof {
            assert(band_views(before).drop_first() =~= band_views(rest@));
            assert(band_views(before).first() == band@);
        }
        let ghost out_before = out@;
        out.append(&mut band);
        proof {
            assert(out@ + band_views(rest@).flatten() =~= out_before + band_views(before).flatten());
        }
    }
    assert(band_views(rest@) =~= Seq::<Seq<[u8; 3]>>::empty());
    assert(out@ =~= total);
    out
}

} // verus!
