use crate::random::draw_below;
use crate::rate::{Rate, RATE_SCALE};
use crate::utils::{count_ones, get_sparse_vec, is_bits, is_mask};
use rand::rngs::ThreadRng;
use vstd::prelude::*;

verus! {

/// The child that takes positions `[0, cut)` from `first` and the rest from
/// `second`.
pub open spec fn spliced(first: Seq<u32>, second: Seq<u32>, cut: int) -> Seq<u32> {
    Seq::new(
        first.len(),
        |i: int|
            if i < cut {
                first[i]
            } else {
                second[i]
            },
    )
}

/// Whether a uniform draw from `[0, RATE_SCALE)` lets the parents recombine:
/// the draw must not exceed the rate.
pub open spec fn recombines(rate: Rate, draw: u32) -> bool {
    draw <= rate.millionths
}

/// The child of one crossover event, given the draw that decided it.
pub open spec fn crossed(first: Seq<u32>, second: Seq<u32>, rate: Rate, cut: int, draw: u32) -> Seq<
    u32,
> {
    if recombines(rate, draw) {
        spliced(first, second, cut)
    } else {
        first
    }
}

/// The genome with exactly the masked positions flipped.
pub open spec fn flipped(genes: Seq<u32>, mask: Seq<u32>) -> Seq<u32> {
    Seq::new(genes.len(), |i: int| ((genes[i] + mask[i]) % 2) as u32)
}

/// In how many positions two genomes of one length differ.
pub open spec fn count_diff(a: Seq<u32>, b: Seq<u32>) -> nat
    decreases a.len(),
{
    if a.len() == 0 || b.len() == 0 {
        0
    } else {
        count_diff(a.drop_last(), b.drop_last()) + if a.last() != b.last() {
            1nat
        } else {
            0nat
        }
    }
}

/// Flipping under a mask keeps a genome a genome and changes exactly as many
/// positions as the mask has ones.
pub proof fn lemma_flip_changes_masked(genes: Seq<u32>, mask: Seq<u32>)
    requires
        genes.len() == mask.len(),
        is_bits(genes),
        is_bits(mask),
    ensures
        is_bits(flipped(genes, mask)),
        flipped(genes, mask).len() == genes.len(),
        count_diff(genes, flipped(genes, mask)) == count_ones(mask),
    decreases genes.len(),
{
    if genes.len() > 0 {
        lemma_flip_changes_masked(genes.drop_last(), mask.drop_last());
        assert(flipped(genes, mask).drop_last() =~= flipped(genes.drop_last(), mask.drop_last()));
    }
}

/// At a rate of one whole every draw lets the parents recombine: the child
/// has the first parent's genes before the cutting point and the second
/// parent's from there on.
pub proof fn lemma_full_rate_splices(
    first: Seq<u32>,
    second: Seq<u32>,
    rate: Rate,
    cut: int,
    draw: u32,
)
    requires
        first.len() == second.len(),
        rate.millionths >= RATE_SCALE,
        draw < RATE_SCALE,
    ensures
        crossed(first, second, rate, cut, draw).len() == first.len(),
        forall|i: int|
            0 <= i < first.len() && i < cut ==> crossed(first, second, rate, cut, draw)[i]
                == first[i],
        forall|i: int|
            0 <= i < first.len() && cut <= i ==> crossed(first, second, rate, cut, draw)[i]
                == second[i],
{
}

/// At a rate of zero every draw but 0 itself leaves the parents apart: the
/// child is the first parent.
pub proof fn lemma_zero_rate_copies(
    first: Seq<u32>,
    second: Seq<u32>,
    rate: Rate,
    cut: int,
    draw: u32,
)
    requires
        rate.millionths == 0,
        draw > 0,
    ensures
        crossed(first, second, rate, cut, draw) == first,
{
}

/// Copies `first` up to the cutting point and `second` from there on.
pub fn splice(first: &Vec<u32>, second: &Vec<u32>, cutting_point: usize) -> (child: Vec<u32>)
    requires
        first.len() == second.len(),
    ensures
        child@ == spliced(first@, second@, cutting_point as int),
{
    let n: usize = first.len();
    let mut child: Vec<u32> = Vec::new();
    let mut i: usize = 0;
    while i < n
        invariant
            i <= n,
            n == first.len(),
            n == second.len(),
            child.len() == i,
            forall|j: int| 0 <= j < i ==> child[j] == spliced(first@, second@, cutting_point as int)[j],
        decreases n - i,
    {
        if i < cutting_point {
            child.push(first[i]);
        } else {
            child.push(second[i]);
        }
        i = i + 1;
    }
    assert(child@ =~= spliced(first@, second@, cutting_point as int));
    child
}

/// A copy of the parent, gene for gene.
pub fn copy_of(parent: &Vec<u32>) -> (child: Vec<u32>)
    ensures
        child@ == parent@,
{
    let n: usize = parent.len();
    let mut child: Vec<u32> = Vec::new();
    let mut i: usize = 0;
    while i < n
        invariant
            i <= n,
            n == parent.len(),
            child.len() == i,
            forall|j: int| 0 <= j < i ==> child[j] == parent[j],
        decreases n - i,
    {
        child.push(parent[i]);
        i = i + 1;
    }
    assert(child@ =~= parent@);
    child
}

/// One crossover event whose deciding draw is given: the parents recombine at
/// the cutting point iff the draw does not exceed the rate, else the child
/// copies the first parent.
pub fn crossover_with(
    first_parent: &Vec<u32>,
    second_parent: &Vec<u32>,
    crossover_rate: Rate,
    cutting_point: usize,
    draw: u32,
) -> (child: Vec<u32>)
    requires
        first_parent.len() == second_parent.len(),
    ensures
        child@ == crossed(first_parent@, second_parent@, crossover_rate, cutting_point as int, draw),
{
    if draw > crossover_rate.millionths {
        copy_of(first_parent)
    } else {
        splice(first_parent, second_parent, cutting_point)
    }
}

/// Recombination of two parents into a child, written over `self`.
pub trait Crossover {
    type Parent;

    /// The genes of the child.
    spec fn child_genes(&self) -> Seq<u32>;

    /// The genes of a parent.
    spec fn parent_genes(parent: &Self::Parent) -> Seq<u32>;

    /// Crossover at a cutting point fixed by the caller. The deciding draw is
    /// uniform over `[0, RATE_SCALE)`.
    fn crossover(
        &mut self,
        first_parent: &Self::Parent,
        second_parent: &Self::Parent,
        crossover_rate: Rate,
        cutting_point: usize,
        rng: &mut ThreadRng,
    )
        requires
            Self::parent_genes(first_parent).len() == Self::parent_genes(second_parent).len(),
        ensures
            exists|draw: u32|
                draw < RATE_SCALE && final(self).child_genes() == #[trigger] crossed(
                    Self::parent_genes(first_parent),
                    Self::parent_genes(second_parent),
                    crossover_rate,
                    cutting_point as int,
                    draw,
                ),
            crossover_rate.millionths >= RATE_SCALE ==> final(self).child_genes() == spliced(
                Self::parent_genes(first_parent),
                Self::parent_genes(second_parent),
                cutting_point as int,
            ),
    ;

    /// Crossover whose cutting point is drawn afresh, uniformly over the
    /// genome's positions, whenever the parents recombine.
    fn random_crossover(
        &mut self,
        first_parent: &Self::Parent,
        second_parent: &Self::Parent,
        crossover_rate: Rate,
        rng: &mut ThreadRng,
    )
        requires
            Self::parent_genes(first_parent).len() == Self::parent_genes(second_parent).len(),
            Self::parent_genes(first_parent).len() > 0,
        ensures
            exists|draw: u32, cut: int|
                draw < RATE_SCALE && 0 <= cut < Self::parent_genes(first_parent).len()
                    && final(self).child_genes() == #[trigger] crossed(
                    Self::parent_genes(first_parent),
                    Self::parent_genes(second_parent),
                    crossover_rate,
                    cut,
                    draw,
                ),
    ;
}

impl Crossover for Vec<u32> {
    type Parent = Vec<u32>;

    open spec fn child_genes(&self) -> Seq<u32> {
        self@
    }

    open spec fn parent_genes(parent: &Vec<u32>) -> Seq<u32> {
        parent@
    }

    fn crossover(
        &mut self,
        first_parent: &Vec<u32>,
        second_parent: &Vec<u32>,
        crossover_rate: Rate,
        cutting_point: usize,
        rng: &mut ThreadRng,
    ) {
        let draw: u32 = draw_below(rng, RATE_SCALE as usize) as u32;
        *self = crossover_with(first_parent, second_parent, crossover_rate, cutting_point, draw);
    }

    fn random_crossover(
        &mut self,
        first_parent: &Vec<u32>,
        second_parent: &Vec<u32>,
        crossover_rate: Rate,
        rng: &mut ThreadRng,
    ) {
        let draw: u32 = draw_below(rng, RATE_SCALE as usize) as u32;
        if draw > crossover_rate.millionths {
            *self = copy_of(first_parent);
            assert(self@ == crossed(first_parent@, second_parent@, crossover_rate, 0, draw));
        } else {
            let cutting_point: usize = draw_below(rng, first_parent.len());
            *self = crossover_with(
                first_parent,
                second_parent,
                crossover_rate,
                cutting_point,
                draw,
            );
        }
    }
}

/// Flips the genes that the mask marks and leaves the others.
pub fn mutate_with(genome: &mut Vec<u32>, mask: &Vec<u32>)
    requires
        old(genome).len() == mask.len(),
        is_bits(old(genome)@),
        is_bits(mask@),
    ensures
        final(genome)@ == flipped(old(genome)@, mask@),
{
    let n: usize = genome.len();
    let ghost before = genome@;
    let mut i: usize = 0;
    while i < n
        invariant
            i <= n,
            n == mask.len(),
            genome.len() == n,
            before.len() == n,
            is_bits(before),
            is_bits(mask@),
            forall|j: int| 0 <= j < i ==> genome[j] == flipped(before, mask@)[j],
            forall|j: int| i <= j < n ==> genome[j] == before[j],
        decreases n - i,
    {
        let gene: u32 = genome[i];
        let to_change: u32 = mask[i];
        assert(before[i as int] == 0 || before[i as int] == 1);
        assert(mask@[i as int] == 0 || mask@[i as int] == 1);
        genome.set(i, (gene + to_change) % 2);
        i = i + 1;
    }
    assert(genome@ =~= flipped(before, mask@));
}

/// Mutation of a genome in place.
pub trait Mutate {
    /// The genes of the genome.
    spec fn genes(&self) -> Seq<u32>;

    /// Flips `floor(n * mutation_rate)` genes at distinct positions drawn
    /// without replacement, where `n` is the genome's length.
    fn mutate(&mut self, mutation_rate: Rate, rng: &mut ThreadRng)
        requires
            is_bits(old(self).genes()),
            mutation_rate.wf(),
        ensures
            final(self).genes().len() == old(self).genes().len(),
            is_bits(final(self).genes()),
            count_diff(old(self).genes(), final(self).genes()) == mutation_rate.share_of(
                old(self).genes().len(),
            ),
            exists|mask: Seq<u32>|
                #[trigger] is_mask(
                    mask,
                    old(self).genes().len(),
                    mutation_rate.share_of(old(self).genes().len()),
                ) && final(self).genes() == flipped(old(self).genes(), mask),
    ;
}

impl Mutate for Vec<u32> {
    open spec fn genes(&self) -> Seq<u32> {
        self@
    }

    fn mutate(&mut self, mutation_rate: Rate, rng: &mut ThreadRng) {
        let n: usize = self.len();
        let k: usize = mutation_rate.count_of(n);
        let sparse_vector = get_sparse_vec(n, k, rng);
        proof {
            lemma_flip_changes_masked(self@, sparse_vector@);
        }
        mutate_with(self, &sparse_vector);
    }
}

} // verus!
