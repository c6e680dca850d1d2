use knapsack_ga::rate::{Rate, RATE_SCALE};
use knapsack_ga::utils::{get_sparse_DVec_with, get_sparse_vec, nth_unset};

fn ones(v: &[u32]) -> usize {
    v.iter().filter(|&&x| x == 1).count()
}

#[test]
fn sparse_vec_with_no_ones_is_all_zero() {
    let mut rng = rand::thread_rng();
    let v = get_sparse_vec(12, 0, &mut rng);
    assert_eq!(v, vec![0u32; 12]);
}

#[test]
fn sparse_vec_of_empty_domain_is_empty() {
    let mut rng = rand::thread_rng();
    let v = get_sparse_vec(0, 0, &mut rng);
    assert!(v.is_empty());
}

#[test]
fn sparse_vec_with_all_ones_terminates() {
    let mut rng = rand::thread_rng();
    let v = get_sparse_vec(64, 64, &mut rng);
    assert_eq!(v, vec![1u32; 64]);
}

#[test]
fn sparse_vec_has_exactly_k_ones() {
    let mut rng = rand::thread_rng();
    for k in 0..=20usize {
        for _ in 0..50 {
            let v = get_sparse_vec(20, k, &mut rng);
            assert_eq!(v.len(), 20);
            assert!(v.iter().all(|&x| x == 0 || x == 1));
            assert_eq!(ones(&v), k);
        }
    }
}

#[test]
fn sparse_vec_reaches_every_slot() {
    let mut rng = rand::thread_rng();
    let mut seen = vec![false; 5];
    for _ in 0..2000 {
        let v = get_sparse_vec(5, 1, &mut rng);
        for (i, &x) in v.iter().enumerate() {
            if x == 1 {
                seen[i] = true;
            }
        }
    }
    assert_eq!(seen, vec![true; 5]);
}

#[test]
fn nth_unset_skips_set_slots() {
    let v: Vec<u32> = vec![1, 0, 1, 0, 0, 1, 0];
    assert_eq!(nth_unset(&v, 0), 1);
    assert_eq!(nth_unset(&v, 1), 3);
    assert_eq!(nth_unset(&v, 2), 4);
    assert_eq!(nth_unset(&v, 3), 6);
}

#[test]
fn nth_unset_of_all_zero_is_the_rank() {
    let v: Vec<u32> = vec![0; 9];
    for rank in 0..9usize {
        assert_eq!(nth_unset(&v, rank), rank);
    }
}

#[test]
fn rate_from_millionths_accepts_up_to_one_whole() {
    assert_eq!(Rate::from_millionths(0).map(|r| r.millionths), Some(0));
    assert_eq!(Rate::from_millionths(250_000).map(|r| r.millionths), Some(250_000));
    assert_eq!(Rate::from_millionths(RATE_SCALE).map(|r| r.millionths), Some(1_000_000));
    assert!(Rate::from_millionths(RATE_SCALE + 1).is_none());
    assert!(Rate::from_millionths(u32::MAX).is_none());
}

#[test]
fn rate_count_is_the_floor_of_the_product() {
    let quarter = Rate { millionths: 250_000 };
    assert_eq!(quarter.count_of(10), 2);
    assert_eq!(quarter.count_of(3), 0);
    assert_eq!(quarter.count_of(4), 1);
    assert_eq!(quarter.count_of(0), 0);
    let hundredth = Rate { millionths: 10_000 };
    assert_eq!(hundredth.count_of(100), 1);
    assert_eq!(hundredth.count_of(99), 0);
    assert_eq!(hundredth.count_of(250), 2);
    let whole = Rate { millionths: RATE_SCALE };
    assert_eq!(whole.count_of(17), 17);
    assert_eq!(whole.count_of(usize::MAX), usize::MAX);
    let none = Rate { millionths: 0 };
    assert_eq!(none.count_of(usize::MAX), 0);
}

#[test]
fn sparse_tournament_vector_has_exactly_k_ones() {
    let mut rng = rand::thread_rng();
    for k in [0usize, 1, 5, 9] {
        let v = get_sparse_DVec_with(9, k, &mut rng);
        assert_eq!(v.len(), 9);
        assert_eq!(ones(&v), k);
    }
}
