use crate::individual::{count_diff, crossed, Crossover, Mutate};
use crate::matrix::{argmax, dot, grid_ncols, grid_rows, is_first_max, Grid};
use crate::random::draw_below;
use crate::rate::{Rate, RATE_SCALE};
use crate::task::{total, Task};
use crate::utils::{get_sparse_DVec_with, is_bits, is_mask};
use rand::rngs::ThreadRng;
use rayon::iter::{IntoParallelIterator, ParallelIterator};
use vstd::prelude::*;

verus! {

/// Why a generation could not be produced.
#[derive(Clone, Copy, Debug, PartialEq, Eq, Structural)]
pub enum EvolveError {
    /// The cutting point lies beyond the genome and nothing allows another.
    Configuration,
    /// The workbench does not have the population's dimensions.
    DimensionMismatch,
}

impl EvolveError {
    /// The text that tells a user of the error.
    pub open spec fn text(self) -> Seq<char> {
        match self {
            EvolveError::Configuration => "crossover barrier is set to too big number"@,
            EvolveError::DimensionMismatch => "matrices differ in size, therefore cannot be swapped"@,
        }
    }

    pub fn message(&self) -> (text: &'static str)
        ensures
            text@ == self.text(),
    {
        match self {
            EvolveError::Configuration => "crossover barrier is set to too big number",
            EvolveError::DimensionMismatch => "matrices differ in size, therefore cannot be swapped",
        }
    }
}

/// One generation: a grid with a genome in every row.
#[derive(Debug)]
pub struct Population {
    population: Grid,
}

/// The score of one genome: its cost if it respects both capacities, else 0.
pub open spec fn fitness(genome: Seq<u32>, task: &Task) -> nat {
    if dot(genome, task.weights()) <= task.max_weight && dot(genome, task.sizes())
        <= task.max_size {
        dot(genome, task.costs())
    } else {
        0
    }
}

/// A genome that breaks a capacity scores 0; any other scores its cost.
pub proof fn lemma_fitness_gated(genome: Seq<u32>, task: &Task)
    ensures
        dot(genome, task.weights()) > task.max_weight || dot(genome, task.sizes()) > task.max_size
            ==> fitness(genome, task) == 0,
        dot(genome, task.weights()) <= task.max_weight && dot(genome, task.sizes())
            <= task.max_size ==> fitness(genome, task) == dot(genome, task.costs()),
{
}

/// `best` is the greatest fitness among the rows.
pub open spec fn is_best_fitness(rows: Seq<Seq<u32>>, task: &Task, best: nat) -> bool {
    &&& exists|r: int| 0 <= r < rows.len() && #[trigger] fitness(rows[r], task) == best
    &&& forall|r: int| 0 <= r < rows.len() ==> #[trigger] fitness(rows[r], task) <= best
}

/// The evaluation with every score outside the mask replaced by 0.
pub open spec fn masked(mask: Seq<u32>, evaluation: Seq<u32>) -> Seq<u32> {
    Seq::new(
        evaluation.len(),
        |i: int|
            if mask[i] == 1 {
                evaluation[i]
            } else {
                0u32
            },
    )
}

/// The score of every row, in order.
pub open spec fn scores_of(rows: Seq<Seq<u32>>, task: &Task) -> Seq<u32> {
    Seq::new(rows.len(), |r: int| fitness(rows[r], task) as u32)
}

/// `winner` wins the tournament among some `tournament_size` distinct
/// candidates.
pub open spec fn can_win(evaluation: Seq<u32>, tournament_size: nat, winner: int) -> bool {
    exists|mask: Seq<u32>|
        #[trigger] is_mask(mask, evaluation.len(), tournament_size) && is_first_max(
            masked(mask, evaluation),
            winner,
        )
}

/// `child` can come out of one crossover at `cut` of two of `parents` that
/// each won a tournament, followed by one mutation.
pub open spec fn bred(
    parents: Seq<Seq<u32>>,
    evaluation: Seq<u32>,
    tournament_size: nat,
    crossover_rate: Rate,
    mutation_rate: Rate,
    cut: int,
    child: Seq<u32>,
) -> bool {
    exists|a: int, b: int, draw: u32|
        0 <= a < parents.len() && 0 <= b < parents.len() && draw < RATE_SCALE && can_win(
            evaluation,
            tournament_size,
            a,
        ) && can_win(evaluation, tournament_size, b) && parents[a].len() == child.len()
            && count_diff(
            #[trigger] crossed(parents[a], parents[b], crossover_rate, cut, draw),
            child,
        ) == mutation_rate.share_of(child.len())
}

/// `child` can come out of breeding at the given cutting point, or, where
/// none is given, at some position of the genome.
pub open spec fn offspring(
    parents: Seq<Seq<u32>>,
    evaluation: Seq<u32>,
    tournament_size: nat,
    crossover_rate: Rate,
    mutation_rate: Rate,
    cutting_point: Option<usize>,
    child: Seq<u32>,
) -> bool {
    match cutting_point {
        Some(cut) => bred(
            parents,
            evaluation,
            tournament_size,
            crossover_rate,
            mutation_rate,
            cut as int,
            child,
        ),
        None => exists|cut: int|
            0 <= cut < child.len() && #[trigger] bred(
                parents,
                evaluation,
                tournament_size,
                crossover_rate,
                mutation_rate,
                cut,
                child,
            ),
    }
}

/// The dot product of a genome with a vector is at most the vector's total.
pub proof fn lemma_dot_bounded(genome: Seq<u32>, v: Seq<u32>)
    requires
        is_bits(genome),
        genome.len() == v.len(),
    ensures
        dot(genome, v) <= total(v),
    decreases genome.len(),
{
    if genome.len() > 0 {
        lemma_dot_bounded(genome.drop_last(), v.drop_last());
        let g = genome.last();
        assert(g == 0 || g == 1);
        assert((g as nat) * (v.last() as nat) <= v.last() as nat) by (nonlinear_arith)
            requires
                g == 0 || g == 1,
        ;
    }
}

/// The gene that a uniform draw stands for: 1 iff the draw is exactly 1.
pub fn gene_of(draw: usize) -> (gene: u32)
    ensures
        gene == if draw == 1 {
            1u32
        } else {
            0u32
        },
{
    if draw == 1 {
        1
    } else {
        0
    }
}

/// What holds of every genome drawn at a density: its genes are 0 or 1, and
/// at density 1, where every draw is 0, all of them are 0.
pub open spec fn is_drawn(genome: Seq<u32>, density: usize) -> bool {
    &&& is_bits(genome)
    &&& density == 1 ==> forall|i: int| 0 <= i < genome.len() ==> #[trigger] genome[i] == 0
}

/// A genome whose genes are independent draws from `[0, density)`.
fn random_genome(length: usize, density: usize, rng: &mut ThreadRng) -> (genome: Vec<u32>)
    requires
        density >= 1,
    ensures
        genome.len() == length,
        is_drawn(genome@, density),
{
    let mut genome: Vec<u32> = Vec::new();
    let mut i: usize = 0;
    while i < length
        invariant
            i <= length,
            density >= 1,
            genome.len() == i,
            is_drawn(genome@, density),
        decreases length - i,
    {
        let gene: u32 = gene_of(draw_below(rng, density));
        genome.push(gene);
        i = i + 1;
    }
    genome
}

/// 1 where the sum respects the limit, 0 where it does not.
pub fn gates_of(sums: &Vec<u32>, max_sum: usize) -> (gates: Vec<u32>)
    ensures
        gates.len() == sums.len(),
        forall|i: int|
            0 <= i < sums.len() ==> #[trigger] gates[i] == if sums[i] <= max_sum {
                1u32
            } else {
                0u32
            },
{
    let mut gates: Vec<u32> = Vec::new();
    let mut i: usize = 0;
    while i < sums.len()
        invariant
            i <= sums.len(),
            gates.len() == i,
            forall|j: int|
                0 <= j < i ==> #[trigger] gates[j] == if sums[j] <= max_sum {
                    1u32
                } else {
                    0u32
                },
        decreases sums.len() - i,
    {
        if sums[i] as usize <= max_sum {
            gates.push(1);
        } else {
            gates.push(0);
        }
        i = i + 1;
    }
    gates
}

/// Keeps the scores that are marked with 1 and puts 0 elsewhere.
pub fn component_mul(gates: &Vec<u32>, scores: &Vec<u32>) -> (products: Vec<u32>)
    requires
        gates.len() == scores.len(),
        is_bits(gates@),
    ensures
        products@ == masked(gates@, scores@),
{
    let mut products: Vec<u32> = Vec::new();
    let mut i: usize = 0;
    while i < scores.len()
        invariant
            i <= scores.len(),
            gates.len() == scores.len(),
            is_bits(gates@),
            products.len() == i,
            forall|j: int| 0 <= j < i ==> products[j] == masked(gates@, scores@)[j],
        decreases scores.len() - i,
    {
        let mark: u32 = gates[i];
        assert(gates@[i as int] == 0 || gates@[i as int] == 1);
        products.push(mark * scores[i]);
        i = i + 1;
    }
    assert(products@ =~= masked(gates@, scores@));
    products
}

/// The winner of the tournament among the masked candidates: the first
/// position of the greatest masked score.
pub fn tournament_winner(mask: &Vec<u32>, evaluation: &Vec<u32>) -> (winner: usize)
    requires
        mask.len() == evaluation.len(),
        evaluation.len() > 0,
        is_bits(mask@),
    ensures
        is_first_max(masked(mask@, evaluation@), winner as int),
        winner < evaluation.len(),
        forall|i: int|
            0 <= i < evaluation.len() && mask[i] == 1 ==> #[trigger] evaluation[i]
                <= evaluation[winner as int],
{
    let sparse_tournament = component_mul(mask, evaluation);
    let (winner_pos, _) = argmax(&sparse_tournament);
    proof {
        lemma_winner_beats_sampled(mask@, evaluation@, winner_pos as int);
    }
    winner_pos
}

/// The winner's score is at least that of every sampled candidate.
pub proof fn lemma_winner_beats_sampled(mask: Seq<u32>, evaluation: Seq<u32>, winner: int)
    requires
        mask.len() == evaluation.len(),
        is_first_max(masked(mask, evaluation), winner),
    ensures
        0 <= winner < evaluation.len(),
        forall|i: int|
            0 <= i < evaluation.len() && mask[i] == 1 ==> #[trigger] evaluation[i]
                <= evaluation[winner],
{
    let m = masked(mask, evaluation);
    assert forall|i: int| 0 <= i < evaluation.len() && mask[i] == 1 implies #[trigger] evaluation[i]
        <= evaluation[winner] by {
        assert(m[i] <= m[winner]);
    }
}

/// Samples `tournament_size` distinct candidates and returns the winner among
/// them.
pub fn tournament_selection(tournament_size: usize, evaluation: &Vec<u32>, rng: &mut ThreadRng) -> (winner: usize)
    requires
        evaluation.len() > 0,
        tournament_size <= evaluation.len(),
    ensures
        winner < evaluation.len(),
        can_win(evaluation@, tournament_size as nat, winner as int),
{
    let sparse_tournament = get_sparse_DVec_with(evaluation.len(), tournament_size, rng);
    let winner = tournament_winner(&sparse_tournament, evaluation);
    assert(is_mask(sparse_tournament@, evaluation.len() as nat, tournament_size as nat));
    winner
}

/// One row of the next generation: two tournaments, one crossover, one
/// mutation.
fn breed_row(
    population: &Grid,
    evaluation: &Vec<u32>,
    tournament_size: usize,
    crossover_rate: Rate,
    cutting_point: Option<usize>,
    mutation_rate: Rate,
    rng: &mut ThreadRng,
) -> (child: Vec<u32>)
    requires
        can_breed(*population, evaluation@, tournament_size, cutting_point, mutation_rate),
    ensures
        child.len() == grid_ncols(*population),
        is_bits(child@),
        offspring(
            grid_rows(*population),
            evaluation@,
            tournament_size as nat,
            crossover_rate,
            mutation_rate,
            cutting_point,
            child@,
        ),
{
    let first_parent_idx = tournament_selection(tournament_size, evaluation, rng);
    let second_parent_idx = tournament_selection(tournament_size, evaluation, rng);
    let first_parent = population.row(first_parent_idx);
    let second_parent = population.row(second_parent_idx);
    let ghost parents = grid_rows(*population);
    assert(parents[first_parent_idx as int].len() == grid_ncols(*population));
    assert(parents[second_parent_idx as int].len() == grid_ncols(*population));
    assert(is_bits(parents[first_parent_idx as int]));
    assert(is_bits(parents[second_parent_idx as int]));
    match cutting_point {
        Some(cut) => {
            let mut child: Vec<u32> = Vec::new();
            child.crossover(&first_parent, &second_parent, crossover_rate, cut, rng);
            let ghost crossed_child = child@;
            let ghost draw = choose|draw: u32|
                draw < RATE_SCALE && crossed_child == #[trigger] crossed(
                    first_parent@,
                    second_parent@,
                    crossover_rate,
                    cut as int,
                    draw,
                );
            assert(is_bits(crossed_child));
            child.mutate(mutation_rate, rng);
            assert(count_diff(
                crossed(
                    parents[first_parent_idx as int],
                    parents[second_parent_idx as int],
                    crossover_rate,
                    cut as int,
                    draw,
                ),
                child@,
            ) == mutation_rate.share_of(child@.len()));
            assert(bred(
                parents,
                evaluation@,
                tournament_size as nat,
                crossover_rate,
                mutation_rate,
                cut as int,
                child@,
            ));
            child
        },
        None => {
            let mut child: Vec<u32> = Vec::new();
            child.random_crossover(&first_parent, &second_parent, crossover_rate, rng);
            let ghost crossed_child = child@;
            let ghost (draw, cut) = choose|draw: u32, cut: int|
                draw < RATE_SCALE && 0 <= cut < first_parent.len() && crossed_child
                    == #[trigger] crossed(first_parent@, second_parent@, crossover_rate, cut, draw);
            assert(is_bits(crossed_child));
            child.mutate(mutation_rate, rng);
            assert(count_diff(
                crossed(
                    parents[first_parent_idx as int],
                    parents[second_parent_idx as int],
                    crossover_rate,
                    cut,
                    draw,
                ),
                child@,
            ) == mutation_rate.share_of(child@.len()));
            assert(bred(
                parents,
                evaluation@,
                tournament_size as nat,
                crossover_rate,
                mutation_rate,
                cut,
                child@,
            ));
            child
        },
    }
}

/// The dot product of every row with the vector fits a `u32`.
pub open spec fn sums_fit_u32(population: Grid, v: Seq<u32>) -> bool {
    forall|i: int|
        0 <= i < grid_rows(population).len() ==> dot(#[trigger] grid_rows(population)[i], v)
            <= u32::MAX
}

/// `sums` holds the dot product of every row with the vector.
pub open spec fn are_sums(population: Grid, v: Seq<u32>, sums: Seq<u32>) -> bool {
    &&& sums.len() == grid_rows(population).len()
    &&& forall|i: int| 0 <= i < sums.len() ==> #[trigger] sums[i] == dot(grid_rows(population)[i], v)
}

/// `gates` holds 1 for every row whose dot product with the vector respects
/// the limit, and 0 for the others.
pub open spec fn are_gates(population: Grid, v: Seq<u32>, max_sum: usize, gates: Seq<u32>) -> bool {
    &&& gates.len() == grid_rows(population).len()
    &&& forall|i: int|
        0 <= i < gates.len() ==> #[trigger] gates[i] == if dot(grid_rows(population)[i], v)
            <= max_sum {
            1u32
        } else {
            0u32
        }
}

/// What breeding asks of a generation and its evaluation.
pub open spec fn can_breed(
    population: Grid,
    evaluation: Seq<u32>,
    tournament_size: usize,
    cutting_point: Option<usize>,
    mutation_rate: Rate,
) -> bool {
    &&& population.rectangular()
    &&& forall|r: int|
        0 <= r < grid_rows(population).len() ==> is_bits(#[trigger] grid_rows(population)[r])
    &&& evaluation.len() == grid_rows(population).len()
    &&& evaluation.len() > 0
    &&& tournament_size <= evaluation.len()
    &&& mutation_rate.wf()
    &&& cutting_point.is_none() ==> grid_ncols(population) > 0
}

/// Calls `crossbeam::thread::scope` and, in it, `Scope::spawn` for each of
/// the three reductions of an evaluation, then joins the three threads.
/// Trusted: each thread's result is what the function it runs returns: the
/// weight gates, the size gates and the cost sums.
#[verifier::external_body]
fn evaluate_parts(population: &Grid, task: &Task) -> (parts: (Vec<u32>, Vec<u32>, Vec<u32>))
    requires
        task.wf(),
        task.number_of_objects == grid_ncols(*population),
        sums_fit_u32(*population, task.weights()),
        sums_fit_u32(*population, task.sizes()),
        sums_fit_u32(*population, task.costs()),
    ensures
        are_gates(*population, task.weights(), task.max_weight, parts.0@),
        are_gates(*population, task.sizes(), task.max_size, parts.1@),
        are_sums(*population, task.costs(), parts.2@),
{
    crossbeam::thread::scope(|s| {
        let weights = s.spawn(|_| Population::get_evaluated_vec(population, task.get_weights(), task.max_weight));
        let sizes = s.spawn(|_| Population::get_evaluated_vec(population, task.get_sizes(), task.max_size));
        let costs = s.spawn(|_| Population::get_summed_vec(population, task.get_costs()));
        (weights.join().unwrap(), sizes.join().unwrap(), costs.join().unwrap())
    }).unwrap()
}

/// Calls `rayon`'s `into_par_iter`, `map_init` and `collect` on the row
/// numbers, with `rand::thread_rng` to give every worker its own generator.
/// Trusted: there is one genome per row, and each is what `random_genome`
/// returns.
#[verifier::external_body]
fn random_genomes(count: usize, length: usize, density: usize) -> (genomes: Vec<Vec<u32>>)
    requires
        density >= 1,
    ensures
        genomes.len() == count,
        forall|r: int|
            0 <= r < count ==> (#[trigger] genomes[r]).len() == length && is_drawn(
                genomes[r]@,
                density,
            ),
{
    (0..count).into_par_iter().map_init(
        || rand::thread_rng(),
        |rng, _| random_genome(length, density, rng),
    ).collect()
}

/// Calls `rayon`'s `into_par_iter`, `map_init` and `collect` on the row
/// numbers, with `rand::thread_rng` to give every worker its own generator.
/// Trusted: there is one child per row, and each is what `breed_row`
/// returns.
#[verifier::external_body]
fn breed_rows(
    population: &Grid,
    evaluation: &Vec<u32>,
    tournament_size: usize,
    crossover_rate: Rate,
    cutting_point: Option<usize>,
    mutation_rate: Rate,
) -> (children: Vec<Vec<u32>>)
    requires
        can_breed(*population, evaluation@, tournament_size, cutting_point, mutation_rate),
    ensures
        children.len() == grid_rows(*population).len(),
        forall|r: int|
            0 <= r < children.len() ==> (#[trigger] children[r]).len() == grid_ncols(*population)
                && is_bits(children[r]@) && offspring(
                grid_rows(*population),
                evaluation@,
                tournament_size as nat,
                crossover_rate,
                mutation_rate,
                cutting_point,
                children[r]@,
            ),
{
    (0..evaluation.len()).into_par_iter().map_init(
        || rand::thread_rng(),
        |rng, _| breed_row(population, evaluation, tournament_size, crossover_rate, cutting_point, mutation_rate, rng),
    ).collect()
}

/// What one generational update does. With a workbench of other dimensions
/// it fails and changes nothing. Otherwise it reports the best score of the
/// generation it found, leaves that generation in the workbench, and puts in
/// its place as many genomes of the same length, each of them bred from it.
pub open spec fn generation_step(
    before: Population,
    bench_before: Grid,
    after: Population,
    bench_after: Grid,
    task: &Task,
    tournament_size: usize,
    crossover_rate: Rate,
    cutting_point: Option<usize>,
    mutation_rate: Rate,
    result: Result<u32, EvolveError>,
) -> bool {
    match result {
        Err(e) => {
            &&& e == EvolveError::DimensionMismatch
            &&& !before.fits(bench_before)
            &&& after == before
            &&& bench_after == bench_before
        },
        Ok(best) => {
            &&& before.fits(bench_before)
            &&& is_best_fitness(before@, task, best as nat)
            &&& after.wf()
            &&& after@.len() == before@.len()
            &&& after.genome_len() == before.genome_len()
            &&& after.fits(bench_after)
            &&& grid_rows(bench_after) == before@
            &&& forall|r: int|
                0 <= r < after@.len() ==> offspring(
                    before@,
                    scores_of(before@, task),
                    tournament_size as nat,
                    crossover_rate,
                    mutation_rate,
                    cutting_point,
                    #[trigger] after@[r],
                )
        },
    }
}

impl Population {
    /// The genomes, one per row.
    pub closed spec fn view(&self) -> Seq<Seq<u32>> {
        grid_rows(self.population)
    }

    /// The genome length.
    pub closed spec fn genome_len(&self) -> nat {
        grid_ncols(self.population)
    }

    /// Every row is a genome of the population's genome length.
    pub open spec fn wf(&self) -> bool {
        forall|r: int|
            0 <= r < self@.len() ==> (#[trigger] self@[r]).len() == self.genome_len() && is_bits(
                self@[r],
            )
    }

    /// The three sums of every row fit a `u32`.
    pub open spec fn evaluable(&self, task: &Task) -> bool {
        forall|r: int|
            0 <= r < self@.len() ==> dot(#[trigger] self@[r], task.weights()) <= u32::MAX && dot(
                self@[r],
                task.sizes(),
            ) <= u32::MAX && dot(self@[r], task.costs()) <= u32::MAX
    }

    /// The workbench has the population's dimensions.
    pub open spec fn fits(&self, workbench: Grid) -> bool {
        grid_rows(workbench).len() == self@.len() && grid_ncols(workbench) == self.genome_len()
    }

    /// A population of genomes over a task whose totals fit can be evaluated.
    pub proof fn lemma_evaluable(&self, task: &Task)
        requires
            self.wf(),
            task.wf(),
            task.sums_fit(),
            self.genome_len() == task.number_of_objects,
        ensures
            self.evaluable(task),
    {
        assert forall|r: int| 0 <= r < self@.len() implies dot(
            #[trigger] self@[r],
            task.weights(),
        ) <= u32::MAX && dot(self@[r], task.sizes()) <= u32::MAX && dot(self@[r], task.costs())
            <= u32::MAX by {
            lemma_dot_bounded(self@[r], task.weights());
            lemma_dot_bounded(self@[r], task.sizes());
            lemma_dot_bounded(self@[r], task.costs());
        }
    }

    /// A random population: every gene is 1 iff a uniform draw from
    /// `[0, population_density)` is exactly 1.
    pub fn generate_initial_population(
        population_size: usize,
        number_of_elements: usize,
        population_density: usize,
    ) -> (population: Population)
        requires
            population_size * number_of_elements <= usize::MAX,
            population_density >= 1,
        ensures
            population@.len() == population_size,
            population.genome_len() == number_of_elements,
            population.wf(),
            forall|r: int|
                0 <= r < population_size ==> is_drawn(#[trigger] population@[r], population_density),
    {
        let genomes = random_genomes(population_size, number_of_elements, population_density);
        let mut matrix = Grid::filled(population_size, number_of_elements, 0);
        let mut r: usize = 0;
        while r < population_size
            invariant
                r <= population_size,
                genomes.len() == population_size,
                forall|q: int|
                    0 <= q < population_size ==> (#[trigger] genomes[q]).len()
                        == number_of_elements && is_drawn(genomes[q]@, population_density),
                grid_rows(matrix).len() == population_size,
                grid_ncols(matrix) == number_of_elements,
                forall|q: int|
                    0 <= q < population_size ==> (#[trigger] grid_rows(matrix)[q]).len()
                        == number_of_elements && is_drawn(
                        grid_rows(matrix)[q],
                        population_density,
                    ),
            decreases population_size - r,
        {
            matrix.set_row(r, &genomes[r]);
            r = r + 1;
        }
        Population { population: matrix }
    }

    /// The population with the given genomes, if each has the given length
    /// and holds only 0 and 1, and the cells can be counted in a `usize`.
    pub fn from_rows(rows: &Vec<Vec<u32>>, number_of_elements: usize) -> (population: Option<
        Population,
    >)
        ensures
            population.is_some() <==> rows.len() * number_of_elements <= usize::MAX && forall|
                r: int,
            |
                0 <= r < rows.len() ==> (#[trigger] rows[r]).len() == number_of_elements && is_bits(
                    rows[r]@,
                ),
            population.is_some() ==> {
                let p = population.unwrap();
                &&& p.wf()
                &&& p.genome_len() == number_of_elements
                &&& p@.len() == rows.len()
                &&& forall|r: int| 0 <= r < rows.len() ==> #[trigger] p@[r] == rows[r]@
            },
    {
        let cells = rows.len().checked_mul(number_of_elements);
        if cells.is_none() {
            return None;
        }
        let mut matrix = Grid::filled(rows.len(), number_of_elements, 0);
        let mut r: usize = 0;
        while r < rows.len()
            invariant
                r <= rows.len(),
                grid_rows(matrix).len() == rows.len(),
                grid_ncols(matrix) == number_of_elements,
                forall|q: int|
                    0 <= q < r ==> (#[trigger] rows[q]).len() == number_of_elements && is_bits(
                        rows[q]@,
                    ),
                forall|q: int| 0 <= q < r ==> #[trigger] grid_rows(matrix)[q] == rows[q]@,
                forall|q: int|
                    0 <= q < rows.len() ==> (#[trigger] grid_rows(matrix)[q]).len()
                        == number_of_elements && is_bits(grid_rows(matrix)[q]),
            decreases rows.len() - r,
        {
            if rows[r].len() != number_of_elements || !holds_bits(&rows[r]) {
                return None;
            }
            matrix.set_row(r, &rows[r]);
            r = r + 1;
        }
        Some(Population { population: matrix })
    }

    /// The score of every genome, in row order.
    pub fn evaluate(&self, task: &Task) -> (evaluation: Vec<u32>)
        requires
            task.wf(),
            self.genome_len() == task.number_of_objects,
            self.evaluable(task),
        ensures
            evaluation.len() == self@.len(),
            forall|r: int|
                0 <= r < self@.len() ==> #[trigger] evaluation[r] == fitness(self@[r], task),
    {
        let ghost rows = grid_rows(self.population);
        assert forall|i: int| 0 <= i < rows.len() implies dot(#[trigger] rows[i], task.weights())
            <= u32::MAX && dot(rows[i], task.sizes()) <= u32::MAX && dot(rows[i], task.costs())
            <= u32::MAX by {
            assert(self@[i] == rows[i]);
        }
        let (weight_gates, size_gates, costs_vec) = evaluate_parts(&self.population, task);
        let costs_vec = component_mul(&size_gates, &costs_vec);
        let costs_vec = component_mul(&weight_gates, &costs_vec);
        costs_vec
    }

    /// 1 for every row whose dot product with the vector respects the limit,
    /// 0 for the others.
    fn get_evaluated_vec(population: &Grid, vec: &Vec<u32>, max_sum: usize) -> (gates: Vec<u32>)
        requires
            vec.len() == grid_ncols(*population),
            sums_fit_u32(*population, vec@),
        ensures
            are_gates(*population, vec@, max_sum, gates@),
    {
        let summed_vec = Self::get_summed_vec(population, vec);
        gates_of(&summed_vec, max_sum)
    }

    /// The dot product of every row with the vector.
    fn get_summed_vec(population: &Grid, vec: &Vec<u32>) -> (sums: Vec<u32>)
        requires
            vec.len() == grid_ncols(*population),
            sums_fit_u32(*population, vec@),
        ensures
            are_sums(*population, vec@, sums@),
    {
        population.times(vec)
    }

    /// What a generational update asks of its inputs: genomes that the task
    /// describes, with sums that fit; at least one of them, and no more
    /// candidates to a tournament than there are; a mutation rate of at most
    /// one whole.
    pub open spec fn can_evolve(&self, task: &Task, tournament_size: usize, mutation_rate: Rate) -> bool {
        &&& self.wf()
        &&& task.wf()
        &&& task.sums_fit()
        &&& self.genome_len() == task.number_of_objects
        &&& self@.len() > 0
        &&& tournament_size <= self@.len()
        &&& mutation_rate.wf()
    }

    /// Replaces the population by the next generation, bred with crossover at
    /// the given cutting point, and returns the best score of the generation
    /// that it replaced. The workbench takes over the replaced generation.
    pub fn evolve_generation(
        &mut self,
        task: &Task,
        tournament_size: usize,
        crossover_rate: Rate,
        cutting_point: usize,
        mutation_rate: Rate,
        workbench: &mut Grid,
    ) -> (result: Result<u32, EvolveError>)
        requires
            old(self).can_evolve(task, tournament_size, mutation_rate),
        ensures
            generation_step(
                *old(self),
                *old(workbench),
                *final(self),
                *final(workbench),
                task,
                tournament_size,
                crossover_rate,
                Some(cutting_point),
                mutation_rate,
                result,
            ),
    {
        self.next_generation(
            task,
            tournament_size,
            crossover_rate,
            Some(cutting_point),
            mutation_rate,
            workbench,
        )
    }

    /// As `evolve_generation`, with a cutting point drawn afresh for every
    /// crossover that recombines.
    pub fn evolve_generation_with_random_barrier(
        &mut self,
        task: &Task,
        tournament_size: usize,
        crossover_rate: Rate,
        mutation_rate: Rate,
        workbench: &mut Grid,
    ) -> (result: Result<u32, EvolveError>)
        requires
            old(self).can_evolve(task, tournament_size, mutation_rate),
            old(self).genome_len() > 0,
        ensures
            generation_step(
                *old(self),
                *old(workbench),
                *final(self),
                *final(workbench),
                task,
                tournament_size,
                crossover_rate,
                None,
                mutation_rate,
                result,
            ),
    {
        self.next_generation(task, tournament_size, crossover_rate, None, mutation_rate, workbench)
    }

    fn next_generation(
        &mut self,
        task: &Task,
        tournament_size: usize,
        crossover_rate: Rate,
        cutting_point: Option<usize>,
        mutation_rate: Rate,
        workbench: &mut Grid,
    ) -> (result: Result<u32, EvolveError>)
        requires
            old(self).can_evolve(task, tournament_size, mutation_rate),
            cutting_point.is_none() ==> old(self).genome_len() > 0,
        ensures
            generation_step(
                *old(self),
                *old(workbench),
                *final(self),
                *final(workbench),
                task,
                tournament_size,
                crossover_rate,
                cutting_point,
                mutation_rate,
                result,
            ),
    {
        let nrows: usize = self.population.nrows();
        let ncols: usize = self.population.ncols();
        if workbench.nrows() != nrows || workbench.ncols() != ncols {
            return Err(EvolveError::DimensionMismatch);
        }
        proof {
            self.lemma_evaluable(task);
        }
        let evaluation = self.evaluate(task);
        let (best_pos, best) = argmax(&evaluation);
        let ghost parents = self@;
        assert(fitness(parents[best_pos as int], task) == best);
        assert forall|q: int| 0 <= q < parents.len() implies #[trigger] fitness(parents[q], task)
            <= best by {
            assert(evaluation[q] == fitness(parents[q], task));
            assert(evaluation@[q] <= evaluation@[best_pos as int]);
        }
        assert(is_best_fitness(parents, task, best as nat));
        assert(evaluation@ =~= scores_of(parents, task));
        let children = breed_rows(
            &self.population,
            &evaluation,
            tournament_size,
            crossover_rate,
            cutting_point,
            mutation_rate,
        );
        let mut r: usize = 0;
        while r < nrows
            invariant
                r <= nrows,
                *self == *old(self),
                parents == self@,
                nrows == parents.len(),
                ncols == self.genome_len(),
                children.len() == nrows,
                forall|q: int|
                    0 <= q < nrows ==> (#[trigger] children[q]).len() == ncols && is_bits(
                        children[q]@,
                    ) && offspring(
                        parents,
                        evaluation@,
                        tournament_size as nat,
                        crossover_rate,
                        mutation_rate,
                        cutting_point,
                        children[q]@,
                    ),
                grid_rows(*workbench).len() == nrows,
                grid_ncols(*workbench) == ncols,
                forall|q: int| 0 <= q < r ==> #[trigger] grid_rows(*workbench)[q] == children[q]@,
            decreases nrows - r,
        {
            workbench.set_row(r, &children[r]);
            r = r + 1;
        }
        std::mem::swap(&mut self.population, workbench);
        Ok(best)
    }

    /// The number of genomes.
    pub fn rows(&self) -> (n: usize)
        ensures
            n == self@.len(),
    {
        self.population.nrows()
    }

    /// The genome length.
    pub fn cols(&self) -> (n: usize)
        ensures
            n == self.genome_len(),
    {
        self.population.ncols()
    }

    /// A copy of genome `r`.
    pub fn genome(&self, r: usize) -> (genes: Vec<u32>)
        requires
            r < self@.len(),
        ensures
            genes@ == self@[r as int],
    {
        self.population.row(r)
    }

    /// A zeroed workbench of the population's dimensions.
    pub fn workbench(&self) -> (workbench: Grid)
        ensures
            self.fits(workbench),
            forall|i: int|
                0 <= i < grid_rows(workbench).len() ==> #[trigger] grid_rows(workbench)[i]
                    == Seq::new(self.genome_len(), |j: int| 0u32),
    {
        let nrows = self.population.nrows();
        let ncols = self.population.ncols();
        Grid::filled(nrows, ncols, 0)
    }
}

/// Whether every entry is 0 or 1.
pub fn holds_bits(v: &Vec<u32>) -> (ok: bool)
    ensures
        ok == is_bits(v@),
{
    let mut i: usize = 0;
    while i < v.len()
        invariant
            i <= v.len(),
            forall|j: int| 0 <= j < i ==> v[j] == 0 || #[trigger] v[j] == 1,
        decreases v.len() - i,
    {
        if v[i] > 1 {
            return false;
        }
        i = i + 1;
    }
    true
}

} // verus!
