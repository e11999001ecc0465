use raytracer::perlin::{apply_swaps, draw_targets, perlin_generate_perm, perm_from_targets, permute, Perlin};
use raytracer::random::random_int;

fn is_perm_table(t: &[i32]) -> bool {
    let mut s = t.to_vec();
    s.sort();
    s == (0..256).collect::<Vec<i32>>()
}

#[test]
fn generated_table_is_a_permutation() {
    let t = perlin_generate_perm();
    assert!(is_perm_table(&t));
}

#[test]
fn generated_tables_move_the_last_entry_too() {
    // The last entry stays put only when its drawn target is itself: 1 in 256.
    let moved = (0..20).any(|_| perlin_generate_perm()[255] != 255);
    assert!(moved);
}

#[test]
fn apply_swaps_runs_from_the_top_down() {
    let mut p = vec![10, 20, 30, 40, 50];
    // entry 3 <-> 0, then 2 <-> 2, then 1 <-> 0; entry 4 is past the targets
    apply_swaps(&mut p, &vec![0, 0, 2, 0]);
    assert_eq!(p, vec![20, 40, 30, 10, 50]);
}

#[test]
fn apply_swaps_with_self_targets_changes_nothing() {
    let mut p = vec![4, 3, 2, 1];
    apply_swaps(&mut p, &vec![0, 1, 2, 3]);
    assert_eq!(p, vec![4, 3, 2, 1]);
}

#[test]
fn perm_from_targets_is_deterministic() {
    let mut targets: Vec<usize> = (0..256).collect();
    targets[255] = 0;
    targets[1] = 0;
    let t = perm_from_targets(&targets);
    let mut expect: Vec<i32> = (0..256).collect();
    expect.swap(255, 0);
    expect.swap(1, 0);
    assert_eq!(t, expect);
    assert_eq!(t[0], 1);
    assert_eq!(t[1], 255);
    assert_eq!(t[255], 0);
}

#[test]
fn drawn_targets_stay_at_or_below_their_index() {
    let t = draw_targets(300);
    assert_eq!(t.len(), 300);
    for (k, &x) in t.iter().enumerate() {
        assert!(x <= k);
    }
    assert!(draw_targets(0).is_empty());
}

#[test]
fn generated_table_is_shuffled() {
    let t = perlin_generate_perm();
    assert_ne!(t, (0..256).collect::<Vec<i32>>());
}

#[test]
fn permute_keeps_tail_and_elements() {
    let mut p: Vec<i32> = (0..10).collect();
    permute(&mut p, 6);
    assert_eq!(&p[6..], &[6, 7, 8, 9]);
    let mut head = p[..6].to_vec();
    head.sort();
    assert_eq!(head, vec![0, 1, 2, 3, 4, 5]);
}

#[test]
fn permute_of_nothing_changes_nothing() {
    let mut p = vec![3, 1, 2];
    permute(&mut p, 1);
    assert_eq!(p, vec![3, 1, 2]);
}

#[test]
fn lattice_index_is_xor_of_wrapped_entries() {
    let n = Perlin::new();
    assert!(is_perm_table(&n.perm_x) && is_perm_table(&n.perm_y) && is_perm_table(&n.perm_z));
    for &(i, j, k) in &[(0, 0, 0), (3, 200, 17), (-1, -256, 511), (i32::MIN, i32::MAX, 1000)] {
        let expect = n.perm_x[(i & 255) as usize] ^ n.perm_y[(j & 255) as usize] ^ n.perm_z[(k & 255) as usize];
        let r = n.lattice_index(i, j, k);
        assert!(r < 256);
        assert_eq!(r, expect as usize);
    }
}

#[test]
fn lattice_index_wraps_every_256() {
    let n = Perlin::new();
    assert_eq!(n.lattice_index(5, -7, 9), n.lattice_index(5 + 256, -7 - 256, 9 + 512));
}

#[test]
fn random_int_stays_in_bounds() {
    for _ in 0..1000 {
        let r = random_int(-3, 4);
        assert!((-3..=4).contains(&r));
    }
    assert_eq!(random_int(7, 7), 7);
}
