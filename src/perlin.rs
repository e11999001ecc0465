//! Permutation tables of Perlin noise and the hash of a lattice point.
//!
//! The gradient vectors that the hash selects are kept by the caller: this
//! module decides only which of the 256 of them belongs to a lattice corner.

use vstd::prelude::*;
use crate::random::{lemma_rearranged_distinct, random_int};

verus! {

/// A table of 256 entries that lists each of `0..256` exactly once.
pub open spec fn is_perm_table(s: Seq<i32>) -> bool {
    &&& s.len() == 256
    &&& forall|i: int| 0 <= i < s.len() ==> 0 <= #[trigger] s[i] < 256
    &&& s.no_duplicates()
}

/// Entry `i & 255` of a table, the coordinate `i` wrapped onto the lattice.
pub open spec fn wrapped(s: Seq<i32>, i: i32) -> i32 {
    s[(i & 255) as int]
}

/// `s` with entries `a` and `b` exchanged.
pub open spec fn swap_entries(s: Seq<i32>, a: int, b: int) -> Seq<i32> {
    s.update(a, s[b]).update(b, s[a])
}

/// Swap targets for a shuffle of `n` entries: entry `k` trades places with an
/// entry at or before it.
pub open spec fn valid_targets(targets: Seq<usize>, n: nat) -> bool {
    &&& targets.len() == n
    &&& forall|k: int| 0 <= k < n ==> #[trigger] targets[k] <= k
}

/// The Fisher-Yates shuffle of the first `i` entries of `s`: entry `i - 1` is
/// exchanged with entry `targets[i - 1]`, then entry `i - 2` with its target,
/// and so on down to entry 1.
pub open spec fn shuffled(s: Seq<i32>, targets: Seq<usize>, i: nat) -> Seq<i32>
    decreases i,
{
    if i <= 1 {
        s
    } else {
        shuffled(
            swap_entries(s, i - 1, targets[i - 1] as int),
            targets,
            (i - 1) as nat,
        )
    }
}

/// `0, 1, ..., 255`.
pub open spec fn identity_table() -> Seq<i32> {
    Seq::new(256, |k: int| k as i32)
}

/// A shuffle keeps the length and the elements, and leaves the entries from
/// `i` on where they were.
pub proof fn lemma_shuffled_rearranges(s: Seq<i32>, targets: Seq<usize>, i: nat)
    requires
        i <= s.len(),
        i <= targets.len(),
        forall|k: int| 0 <= k < i ==> #[trigger] targets[k] <= k,
    ensures
        shuffled(s, targets, i).len() == s.len(),
        shuffled(s, targets, i).to_multiset() == s.to_multiset(),
        forall|k: int| i <= k < s.len() ==> #[trigger] shuffled(s, targets, i)[k] == s[k],
    decreases i,
{
    if i > 1 {
        let a = i - 1;
        let b = targets[a] as int;
        let t = swap_entries(s, a, b);
        lemma_swap_keeps_elements(s, a, b);
        lemma_shuffled_rearranges(t, targets, (i - 1) as nat);
    }
}

proof fn lemma_swap_keeps_elements(s: Seq<i32>, a: int, b: int)
    requires
        0 <= a < s.len(),
        0 <= b < s.len(),
    ensures
        swap_entries(s, a, b).len() == s.len(),
        swap_entries(s, a, b).to_multiset() == s.to_multiset(),
        forall|k: int| 0 <= k < s.len() && k != a && k != b ==> #[trigger] swap_entries(s, a, b)[k]
            == s[k],
{
    broadcast use vstd::multiset::group_multiset_axioms;
    broadcast use vstd::seq_lib::group_to_multiset_ensures;
    broadcast use vstd::seq_lib::to_multiset_update;

    let m = s.to_multiset();
    let x = s[a];
    let y = s[b];
    let mid = s.update(a, y);
    assert(mid[b] == y);
    assert(s.contains(s[a]));
    assert(m.count(x) > 0);
    assert(mid.to_multiset() == m.insert(y).remove(x));
    assert(mid.to_multiset().count(y) > 0);
    assert(swap_entries(s, a, b).to_multiset() == m.insert(y).remove(x).insert(x).remove(y));
    assert(swap_entries(s, a, b).to_multiset() =~= m);
}

/// Shuffles the first `targets.len()` entries of `p` with the given swap
/// targets, from the last of those entries down to entry 1.
pub fn apply_swaps(p: &mut Vec<i32>, targets: &Vec<usize>)
    requires
        targets@.len() <= old(p)@.len(),
        valid_targets(targets@, targets@.len()),
    ensures
        final(p)@ == shuffled(old(p)@, targets@, targets@.len()),
{
    let ghost start = p@;
    let n = targets.len();
    let mut i: usize = n;
    while i > 1
        invariant
            i <= n,
            n == targets@.len(),
            n <= start.len(),
            p@.len() == start.len(),
            valid_targets(targets@, n as nat),
            shuffled(p@, targets@, i as nat) == shuffled(start, targets@, n as nat),
        decreases i,
    {
        let ghost before = p@;
        i = i - 1;
        let target = targets[i];
        assert(target <= i);
        let a = p[i];
        let b = p[target];
        p.set(i, b);
        p.set(target, a);
        assert(p@ == swap_entries(before, i as int, target as int));
    }
}

/// Random swap targets for a shuffle of `n` entries.
pub fn draw_targets(n: usize) -> (r: Vec<usize>)
    requires
        n <= 2147483648,
    ensures
        valid_targets(r@, n as nat),
{
    let mut r: Vec<usize> = Vec::new();
    let mut i: usize = 0;
    while i < n
        invariant
            i <= n,
            n <= 2147483648,
            valid_targets(r@, i as nat),
        decreases n - i,
    {
        let t = random_int(0, i as i32);
        r.push(t as usize);
        i = i + 1;
    }
    r
}

/// Puts the first `n` entries of `p` in a random order and leaves the others
/// where they are: some Fisher-Yates shuffle of them.
pub fn permute(p: &mut Vec<i32>, n: usize)
    requires
        n <= old(p)@.len(),
        n <= 2147483648,
    ensures
        exists|targets: Seq<usize>|
            valid_targets(targets, n as nat) && final(p)@ == shuffled(old(p)@, targets, n as nat),
        final(p)@.len() == old(p)@.len(),
        final(p)@.to_multiset() == old(p)@.to_multiset(),
        forall|k: int| n <= k < old(p)@.len() ==> #[trigger] final(p)@[k] == old(p)@[k],
{
    let ghost start = p@;
    let targets = draw_targets(n);
    apply_swaps(p, &targets);
    proof {
        lemma_shuffled_rearranges(start, targets@, n as nat);
    }
}

/// The table that the swap targets `targets` make of `0..256`.
pub fn perm_from_targets(targets: &Vec<usize>) -> (r: Vec<i32>)
    requires
        valid_targets(targets@, 256),
    ensures
        r@ == shuffled(identity_table(), targets@, 256),
        is_perm_table(r@),
{
    let mut p: Vec<i32> = Vec::new();
    let mut i: i32 = 0;
    while i < 256
        invariant
            0 <= i <= 256,
            p@ == Seq::new(i as nat, |k: int| k as i32),
        decreases 256 - i,
    {
        p.push(i);
        i = i + 1;
        assert(p@ =~= Seq::new(i as nat, |k: int| k as i32));
    }
    let ghost start = p@;
    assert(start == identity_table());
    apply_swaps(&mut p, targets);
    proof {
        lemma_shuffled_rearranges(start, targets@, 256);
        assert(start.no_duplicates());
        lemma_rearranged_distinct(start, p@);
        assert forall|k: int| 0 <= k < p@.len() implies 0 <= #[trigger] p@[k] < 256 by {
            assert(start.contains(p@[k]));
        }
    }
    p
}

/// A table that lists `0..256` once each, in an order drawn by a
/// Fisher-Yates shuffle.
pub fn perlin_generate_perm() -> (r: Vec<i32>)
    ensures
        is_perm_table(r@),
        exists|targets: Seq<usize>|
            valid_targets(targets, 256) && r@ == shuffled(identity_table(), targets, 256),
{
    let targets = draw_targets(256);
    perm_from_targets(&targets)
}

/// The three permutation tables that hash a lattice point of Perlin noise.
pub struct Perlin {
    pub perm_x: Vec<i32>,
    pub perm_y: Vec<i32>,
    pub perm_z: Vec<i32>,
}

impl Perlin {
    /// Each table lists `0..256` once.
    pub open spec fn wf(&self) -> bool {
        &&& is_perm_table(self.perm_x@)
        &&& is_perm_table(self.perm_y@)
        &&& is_perm_table(self.perm_z@)
    }

    /// Hash of lattice point `(i, j, k)`, as spelled out by
    /// [`Perlin::lattice_index`].
    pub open spec fn lattice_hash(&self, i: i32, j: i32, k: i32) -> i32 {
        wrapped(self.perm_x@, i) ^ wrapped(self.perm_y@, j) ^ wrapped(self.perm_z@, k)
    }

    /// Three freshly drawn tables.
    pub fn new() -> (r: Perlin)
        ensures
            r.wf(),
    {
        let perm_x = perlin_generate_perm();
        let perm_y = perlin_generate_perm();
        let perm_z = perlin_generate_perm();
        Perlin { perm_x, perm_y, perm_z }
    }

    /// Which of 256 gradients belongs to lattice point `(i, j, k)`: the
    /// exclusive or of the three tables' entries at the coordinates wrapped to
    /// `0..256`.
    pub fn lattice_index(&self, i: i32, j: i32, k: i32) -> (r: usize)
        requires
            self.wf(),
        ensures
            r < 256,
            r == self.lattice_hash(i, j, k),
    {
        proof {
            assert(0 <= (i & 255) < 256) by (bit_vector);
            assert(0 <= (j & 255) < 256) by (bit_vector);
            assert(0 <= (k & 255) < 256) by (bit_vector);
        }
        let a = self.perm_x[(i & 255) as usize];
        let b = self.perm_y[(j & 255) as usize];
        let c = self.perm_z[(k & 255) as usize];
        proof {
            assert(0 <= a < 256);
            assert(0 <= b < 256);
            assert(0 <= c < 256);
            assert(0 <= (a ^ b ^ c) < 256) by (bit_vector)
                requires
                    0 <= a < 256,
                    0 <= b < 256,
                    0 <= c < 256,
            ;
        }
        (a ^ b ^ c) as usize
    }
}

} // verus!
