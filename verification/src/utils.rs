use crate::random::draw_below;
use rand::rngs::ThreadRng;
use vstd::prelude::*;

verus! {

/// Every entry is 0 or 1.
pub open spec fn is_bits(s: Seq<u32>) -> bool {
    forall|i: int| 0 <= i < s.len() ==> s[i] == 0 || #[trigger] s[i] == 1
}

/// How many entries equal 1.
pub open spec fn count_ones(s: Seq<u32>) -> nat
    decreases s.len(),
{
    if s.len() == 0 {
        0
    } else {
        count_ones(s.drop_last()) + if s.last() == 1 {
            1nat
        } else {
            0nat
        }
    }
}

/// A mask over `n` slots with exactly `k` of them set.
pub open spec fn is_mask(s: Seq<u32>, n: nat, k: nat) -> bool {
    s.len() == n && is_bits(s) && count_ones(s) == k
}

/// Extending a prefix by one entry adds that entry's contribution.
pub proof fn lemma_count_step(s: Seq<u32>, i: int)
    requires
        0 <= i < s.len(),
    ensures
        count_ones(s.take(i + 1)) == count_ones(s.take(i)) + if s[i] == 1 {
            1nat
        } else {
            0nat
        },
{
    assert(s.take(i + 1).drop_last() =~= s.take(i));
}

/// Writing one entry changes the count by that entry's contribution alone.
pub proof fn lemma_count_update(s: Seq<u32>, i: int, x: u32)
    requires
        0 <= i < s.len(),
    ensures
        count_ones(s.update(i, x)) + (if s[i] == 1 {
            1nat
        } else {
            0nat
        }) == count_ones(s) + (if x == 1 {
            1nat
        } else {
            0nat
        }),
    decreases s.len(),
{
    if i == s.len() - 1 {
        assert(s.update(i, x).drop_last() =~= s.drop_last());
    } else {
        lemma_count_update(s.drop_last(), i, x);
        assert(s.update(i, x).drop_last() =~= s.drop_last().update(i, x));
    }
}

/// The position of the unset slot that has exactly `rank` unset slots before it.
pub fn nth_unset(v: &Vec<u32>, rank: usize) -> (pos: usize)
    requires
        is_bits(v@),
        rank + count_ones(v@) < v.len(),
    ensures
        pos < v.len(),
        v[pos as int] == 0,
        pos == rank + count_ones(v@.take(pos as int)),
{
    let mut i: usize = 0;
    let mut seen: usize = 0;
    proof {
        assert(v@.take(v.len() as int) =~= v@);
    }
    while i < v.len()
        invariant
            i <= v.len(),
            is_bits(v@),
            rank + count_ones(v@) < v.len(),
            i == seen + count_ones(v@.take(i as int)),
            seen <= rank,
            v@.take(v.len() as int) == v@,
        decreases v.len() - i,
    {
        proof {
            lemma_count_step(v@, i as int);
        }
        if v[i] == 0 {
            if seen == rank {
                return i;
            }
            seen = seen + 1;
        }
        i = i + 1;
    }
    // Not reached: once every slot is seen, `seen` counts all unset slots,
    // and there are more than `rank` of them.
    proof {
        assert(false);
    }
    0
}

/// The mask of a tournament: `k` of `n` candidates, drawn without
/// replacement.
#[allow(non_snake_case)]
pub fn get_sparse_DVec_with(n: usize, k: usize, rng: &mut ThreadRng) -> (v: Vec<u32>)
    requires
        k <= n,
    ensures
        is_mask(v@, n as nat, k as nat),
{
    get_sparse_vec(n, k, rng)
}

/// A vector of `n` slots, `k` of them set to 1 and drawn without replacement,
/// the others 0. A draw that lands on a set slot is made good by drawing a
/// rank among the slots still unset, so that `k` hits take at most `2k` draws.
pub fn get_sparse_vec(n: usize, k: usize, rng: &mut ThreadRng) -> (v: Vec<u32>)
    requires
        k <= n,
    ensures
        is_mask(v@, n as nat, k as nat),
{
    let mut v: Vec<u32> = Vec::new();
    let mut filled: usize = 0;
    while filled < n
        invariant
            filled <= n,
            v.len() == filled,
            is_bits(v@),
            count_ones(v@) == 0,
        decreases n - filled,
    {
        proof {
            assert(v@.push(0u32).drop_last() =~= v@);
        }
        v.push(0);
        filled = filled + 1;
    }
    let mut one_counter: usize = 0;
    while one_counter < k
        invariant
            one_counter <= k <= n,
            v.len() == n,
            is_bits(v@),
            count_ones(v@) == one_counter,
        decreases k - one_counter,
    {
        let drawn: usize = draw_below(rng, n);
        let pos: usize = if v[drawn] == 0 {
            drawn
        } else {
            let rank: usize = draw_below(rng, n - one_counter);
            nth_unset(&v, rank)
        };
        proof {
            lemma_count_update(v@, pos as int, 1u32);
        }
        v.set(pos, 1);
        one_counter = one_counter + 1;
    }
    v
}

} // verus!
