use vstd::prelude::*;

verus! {

/// The sum of all entries.
pub open spec fn total(s: Seq<u32>) -> nat
    decreases s.len(),
{
    if s.len() == 0 {
        0
    } else {
        total(s.drop_last()) + s.last() as nat
    }
}

/// One instance of the problem: the items' weights, sizes and costs, and the
/// two capacities that a selection must respect.
#[derive(Debug, Clone)]
pub struct Task {
    pub number_of_objects: usize,
    pub max_weight: usize,
    pub max_size: usize,
    pub weights: Vec<u32>,
    pub sizes: Vec<u32>,
    pub costs: Vec<u32>,
}

impl Task {
    pub open spec fn weights(&self) -> Seq<u32> {
        self.weights@
    }

    pub open spec fn sizes(&self) -> Seq<u32> {
        self.sizes@
    }

    pub open spec fn costs(&self) -> Seq<u32> {
        self.costs@
    }

    /// The three vectors describe the same `number_of_objects` items.
    pub open spec fn wf(&self) -> bool {
        &&& self.weights().len() == self.number_of_objects
        &&& self.sizes().len() == self.number_of_objects
        &&& self.costs().len() == self.number_of_objects
    }

    /// Each vector's total fits a `u32`, so that the sums over any selection do.
    pub open spec fn sums_fit(&self) -> bool {
        &&& total(self.weights()) <= u32::MAX
        &&& total(self.sizes()) <= u32::MAX
        &&& total(self.costs()) <= u32::MAX
    }

    pub fn from_args(
        number_of_objects: usize,
        max_weight: usize,
        max_size: usize,
        weights: Vec<u32>,
        sizes: Vec<u32>,
        costs: Vec<u32>,
    ) -> (task: Task)
        ensures
            task.number_of_objects == number_of_objects,
            task.max_weight == max_weight,
            task.max_size == max_size,
            task.weights() == weights@,
            task.sizes() == sizes@,
            task.costs() == costs@,
    {
        Task { number_of_objects, max_weight, max_size, weights, sizes, costs }
    }

    pub fn get_weights(&self) -> (weights: &Vec<u32>)
        ensures
            weights@ == self.weights(),
    {
        &self.weights
    }

    pub fn get_sizes(&self) -> (sizes: &Vec<u32>)
        ensures
            sizes@ == self.sizes(),
    {
        &self.sizes
    }

    pub fn get_costs(&self) -> (costs: &Vec<u32>)
        ensures
            costs@ == self.costs(),
    {
        &self.costs
    }

    /// Whether the three vectors have one entry per item.
    pub fn is_consistent(&self) -> (ok: bool)
        ensures
            ok == self.wf(),
    {
        self.weights.len() == self.number_of_objects && self.sizes.len() == self.number_of_objects
            && self.costs.len() == self.number_of_objects
    }

    /// Whether each vector's total fits a `u32`.
    pub fn has_fitting_sums(&self) -> (ok: bool)
        ensures
            ok == self.sums_fit(),
    {
        total_fits(&self.weights) && total_fits(&self.sizes) && total_fits(&self.costs)
    }
}

/// Whether the sum of all entries fits a `u32`.
pub fn total_fits(v: &Vec<u32>) -> (ok: bool)
    ensures
        ok == (total(v@) <= u32::MAX),
{
    let mut sum: u64 = 0;
    let mut i: usize = 0;
    assert(v@.take(0) =~= Seq::<u32>::empty());
    while i < v.len()
        invariant
            i <= v.len(),
            sum == total(v@.take(i as int)),
            sum <= u32::MAX,
        decreases v.len() - i,
    {
        proof {
            assert(v@.take(i + 1).drop_last() =~= v@.take(i as int));
            lemma_total_prefix(v@, i + 1);
        }
        sum = sum + v[i] as u64;
        if sum > u32::MAX as u64 {
            return false;
        }
        i = i + 1;
    }
    assert(v@.take(v.len() as int) =~= v@);
    true
}

/// The total of a prefix never exceeds the total of the whole.
pub proof fn lemma_total_prefix(s: Seq<u32>, n: int)
    requires
        0 <= n <= s.len(),
    ensures
        total(s.take(n)) <= total(s),
    decreases s.len() - n,
{
    if n < s.len() {
        assert(s.take(n + 1).drop_last() =~= s.take(n));
        lemma_total_prefix(s, n + 1);
    } else {
        assert(s.take(n) =~= s);
    }
}

} // verus!
