use wasm_capnp_async::shuffle::{lcg_next, shuffle_indices};

fn is_permutation(v: &[usize], n: usize) -> bool {
    let mut seen = vec![false; n];
    if v.len() != n {
        return false;
    }
    for &x in v {
        if x >= n || seen[x] {
            return false;
        }
        seen[x] = true;
    }
    true
}

#[test]
fn lcg_next_steps_from_zero_and_one() {
    let mut s: u64 = 0;
    assert_eq!(lcg_next(&mut s), 1);
    assert_eq!(s, 1);
    assert_eq!(lcg_next(&mut s), 6364136223846793006);
    assert_eq!(s, 6364136223846793006);
}

#[test]
fn lcg_next_wraps_at_the_top_of_the_range() {
    let mut s: u64 = u64::MAX;
    assert_eq!(lcg_next(&mut s), 12082607849862758612);
}

#[test]
fn shuffle_of_empty_and_single_ranges() {
    for seed in [0u64, 1, 7, u64::MAX] {
        assert_eq!(shuffle_indices(0, seed), Vec::<usize>::new());
        assert_eq!(shuffle_indices(1, seed), vec![0]);
    }
}

#[test]
fn shuffle_is_deterministic() {
    for seed in [0u64, 1, 42, 0xDEADBEEF, u64::MAX] {
        for n in [2usize, 3, 17, 1000] {
            assert_eq!(shuffle_indices(n, seed), shuffle_indices(n, seed));
        }
    }
}

#[test]
fn shuffle_exact_values() {
    assert_eq!(shuffle_indices(2, 0), vec![1, 0]);
    assert_eq!(shuffle_indices(3, 0), vec![0, 2, 1]);
    assert_eq!(shuffle_indices(5, 0), vec![2, 4, 0, 3, 1]);
    assert_eq!(shuffle_indices(10, 42), vec![4, 3, 6, 9, 0, 5, 8, 1, 2, 7]);
}

#[test]
fn zero_seed_behaves_as_seed_one() {
    for n in [2usize, 5, 64] {
        assert_eq!(shuffle_indices(n, 0), shuffle_indices(n, 1));
    }
}

#[test]
fn zero_seed_shuffle_is_not_degenerate() {
    for n in 2usize..200 {
        let v = shuffle_indices(n, 0);
        let identity: Vec<usize> = (0..n).collect();
        assert_ne!(v, identity, "identity for {}", n);
        assert!(v.iter().any(|&x| x != v[0]));
    }
}

#[test]
fn shuffle_is_a_permutation() {
    for seed in [0u64, 3, 99, u64::MAX] {
        for n in [0usize, 1, 2, 10, 1000] {
            assert!(is_permutation(&shuffle_indices(n, seed), n));
        }
    }
}
