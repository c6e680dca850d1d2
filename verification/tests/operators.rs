use knapsack_ga::individual::{copy_of, crossover_with, mutate_with, splice, Crossover, Mutate};
use knapsack_ga::rate::{Rate, RATE_SCALE};

fn differing(a: &[u32], b: &[u32]) -> usize {
    assert_eq!(a.len(), b.len());
    a.iter().zip(b.iter()).filter(|(x, y)| x != y).count()
}

#[test]
fn splice_takes_head_of_first_and_tail_of_second() {
    let first: Vec<u32> = vec![1, 1, 1, 1, 1];
    let second: Vec<u32> = vec![0, 0, 0, 0, 0];
    assert_eq!(splice(&first, &second, 0), vec![0, 0, 0, 0, 0]);
    assert_eq!(splice(&first, &second, 2), vec![1, 1, 0, 0, 0]);
    assert_eq!(splice(&first, &second, 5), vec![1, 1, 1, 1, 1]);
    assert_eq!(splice(&first, &second, 9), vec![1, 1, 1, 1, 1]);
}

#[test]
fn copy_of_is_gene_for_gene() {
    let parent: Vec<u32> = vec![0, 1, 1, 0, 1];
    assert_eq!(copy_of(&parent), parent);
    assert_eq!(copy_of(&Vec::new()), Vec::<u32>::new());
}

#[test]
fn crossover_recombines_iff_draw_does_not_exceed_rate() {
    let first: Vec<u32> = vec![1, 1, 1, 1];
    let second: Vec<u32> = vec![0, 0, 0, 0];
    let rate = Rate { millionths: 300_000 };
    assert_eq!(crossover_with(&first, &second, rate, 1, 0), vec![1, 0, 0, 0]);
    assert_eq!(crossover_with(&first, &second, rate, 1, 299_999), vec![1, 0, 0, 0]);
    assert_eq!(crossover_with(&first, &second, rate, 1, 300_000), vec![1, 0, 0, 0]);
    assert_eq!(crossover_with(&first, &second, rate, 1, 300_001), vec![1, 1, 1, 1]);
    assert_eq!(crossover_with(&first, &second, rate, 1, 999_999), vec![1, 1, 1, 1]);
}

#[test]
fn crossover_at_full_rate_always_splices() {
    let first: Vec<u32> = vec![1, 0, 1, 0, 1, 0, 1, 0];
    let second: Vec<u32> = vec![0, 0, 1, 1, 0, 0, 1, 1];
    let rate = Rate { millionths: RATE_SCALE };
    let mut rng = rand::thread_rng();
    for cut in 0..=8usize {
        for _ in 0..100 {
            let mut child: Vec<u32> = vec![7; 3];
            child.crossover(&first, &second, rate, cut, &mut rng);
            assert_eq!(&child[..cut], &first[..cut]);
            assert_eq!(&child[cut..], &second[cut..]);
        }
    }
}

#[test]
fn crossover_at_zero_rate_copies_first_parent() {
    let first: Vec<u32> = vec![1, 0, 1, 0, 1, 0, 1, 0];
    let second: Vec<u32> = vec![0, 0, 1, 1, 0, 0, 1, 1];
    let rate = Rate { millionths: 0 };
    for draw in [1u32, 2, 500_000, 999_999] {
        assert_eq!(crossover_with(&first, &second, rate, 3, draw), first);
    }
    assert_eq!(crossover_with(&first, &second, rate, 3, 0), vec![1, 0, 1, 1, 0, 0, 1, 1]);
}

#[test]
fn crossover_child_is_first_parent_or_splice() {
    let first: Vec<u32> = vec![1, 1, 1, 1, 1, 1];
    let second: Vec<u32> = vec![0, 0, 0, 0, 0, 0];
    let rate = Rate { millionths: 500_000 };
    let mut rng = rand::thread_rng();
    let mut copies = 0;
    let mut splices = 0;
    for _ in 0..400 {
        let mut child: Vec<u32> = Vec::new();
        child.crossover(&first, &second, rate, 2, &mut rng);
        if child == first {
            copies += 1;
        } else {
            assert_eq!(child, vec![1, 1, 0, 0, 0, 0]);
            splices += 1;
        }
    }
    assert!(copies > 0);
    assert!(splices > 0);
}

#[test]
fn random_crossover_cuts_inside_the_genome() {
    let first: Vec<u32> = vec![1, 1, 1, 1, 1, 1];
    let second: Vec<u32> = vec![0, 0, 0, 0, 0, 0];
    let rate = Rate { millionths: RATE_SCALE };
    let mut rng = rand::thread_rng();
    let mut cuts = vec![false; 6];
    for _ in 0..600 {
        let mut child: Vec<u32> = Vec::new();
        child.random_crossover(&first, &second, rate, &mut rng);
        assert_eq!(child.len(), 6);
        let cut = child.iter().take_while(|&&g| g == 1).count();
        assert!(cut < 6);
        assert!(child[cut..].iter().all(|&g| g == 0));
        cuts[cut] = true;
    }
    assert_eq!(cuts, vec![true; 6]);
}

#[test]
fn mutate_with_flips_exactly_the_masked_genes() {
    let mut genome: Vec<u32> = vec![0, 1, 0, 1, 1, 0];
    let mask: Vec<u32> = vec![1, 1, 0, 0, 1, 0];
    mutate_with(&mut genome, &mask);
    assert_eq!(genome, vec![1, 0, 0, 1, 0, 0]);
    let zero: Vec<u32> = vec![0; 6];
    mutate_with(&mut genome, &zero);
    assert_eq!(genome, vec![1, 0, 0, 1, 0, 0]);
}

#[test]
fn mutate_changes_exactly_floor_of_n_times_rate_genes() {
    let mut rng = rand::thread_rng();
    let cases: [(usize, u32, usize); 6] = [
        (10, 250_000, 2),
        (10, 0, 0),
        (10, 1_000_000, 10),
        (7, 500_000, 3),
        (100, 10_000, 1),
        (3, 300_000, 0),
    ];
    for (n, millionths, expected) in cases {
        for _ in 0..50 {
            let before: Vec<u32> = (0..n).map(|i| (i % 2) as u32).collect();
            let mut genome = before.clone();
            genome.mutate(Rate { millionths }, &mut rng);
            assert_eq!(genome.len(), n);
            assert!(genome.iter().all(|&g| g == 0 || g == 1));
            assert_eq!(differing(&before, &genome), expected);
        }
    }
}

#[test]
fn mutate_of_empty_genome_is_empty() {
    let mut rng = rand::thread_rng();
    let mut genome: Vec<u32> = Vec::new();
    genome.mutate(Rate { millionths: RATE_SCALE }, &mut rng);
    assert!(genome.is_empty());
}
