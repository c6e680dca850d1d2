use crate::matrix::Grid;
use crate::population::{
    fitness, is_best_fitness, is_drawn, lemma_dot_bounded, offspring, scores_of, EvolveError,
    Population,
};
use crate::random::{draw_below, local_rng};
use crate::rate::Rate;
use crate::task::{total, Task};
use crate::utils::is_bits;
use vstd::prelude::*;

verus! {

/// The options of one run.
#[derive(Debug, Clone, Copy)]
pub struct AlgorithmConfiguration {
    /// How many generations to produce.
    pub iterations: usize,
    /// How many genomes a generation holds.
    pub population_size: usize,
    /// The probability that two parents recombine.
    pub crossover_rate: Rate,
    /// How many genes a child takes from its first parent.
    pub cutting_point: usize,
    /// The share of a genome's genes that a mutation flips.
    pub mutation_rate: Rate,
    /// How many candidates a tournament samples.
    pub tournament_size: usize,
    /// Replace a cutting point beyond the genome by one drawn for the run.
    pub try_recover_from_barrier_overflow: bool,
    /// Draw a cutting point for every crossover.
    pub use_random_cutting_point: bool,
    /// A gene of the first generation is set with probability one in `density`.
    pub density: usize,
}

/// Where the crossovers of a run cut.
#[derive(Clone, Copy, Debug, PartialEq, Eq, Structural)]
pub enum CuttingPlan {
    /// At the configured point, for the whole run.
    Fixed,
    /// At a point drawn afresh for every crossover.
    Random,
    /// At one point drawn for the whole run.
    Recovered,
    /// Nowhere: the configuration is refused.
    Rejected,
}

/// How a run cuts: a configured point inside the genome is used as given,
/// unless every crossover draws its own; a point outside is ignored where
/// every crossover draws its own, replaced where recovery is asked for, and
/// refused otherwise.
pub open spec fn cutting_plan(config: &AlgorithmConfiguration, item_count: usize) -> CuttingPlan {
    if config.use_random_cutting_point {
        CuttingPlan::Random
    } else if config.cutting_point < item_count {
        CuttingPlan::Fixed
    } else if config.try_recover_from_barrier_overflow {
        CuttingPlan::Recovered
    } else {
        CuttingPlan::Rejected
    }
}

/// `rows` is a generation of `size` genomes of `length` genes each.
pub open spec fn is_generation(rows: Seq<Seq<u32>>, size: nat, length: nat) -> bool {
    &&& rows.len() == size
    &&& forall|r: int| 0 <= r < rows.len() ==> (#[trigger] rows[r]).len() == length && is_bits(rows[r])
}

/// The settings that every generation of one run is bred with.
pub struct Breeding {
    pub tournament_size: usize,
    pub crossover_rate: Rate,
    pub cutting_point: Option<usize>,
    pub mutation_rate: Rate,
}

/// `next` can follow `current`: it has as many genomes, of the same length,
/// and each of them is bred from `current`.
pub open spec fn succeeds(
    current: Seq<Seq<u32>>,
    next: Seq<Seq<u32>>,
    task: &Task,
    breeding: Breeding,
) -> bool {
    &&& next.len() == current.len()
    &&& forall|r: int|
        0 <= r < next.len() ==> offspring(
            current,
            scores_of(current, task),
            breeding.tournament_size as nat,
            breeding.crossover_rate,
            breeding.mutation_rate,
            breeding.cutting_point,
            #[trigger] next[r],
        )
}

/// Step `i` of a run: generation `i` and the one after it have the given
/// shape, score `i` is the best of generation `i`, and the one after it is
/// bred from it.
pub open spec fn is_step(
    generations: Seq<Seq<Seq<u32>>>,
    scores: Seq<u32>,
    task: &Task,
    breeding: Breeding,
    size: nat,
    length: nat,
    i: int,
) -> bool {
    &&& is_generation(generations[i], size, length)
    &&& is_generation(generations[i + 1], size, length)
    &&& is_best_fitness(generations[i], task, scores[i] as nat)
    &&& succeeds(generations[i], generations[i + 1], task, breeding)
}

/// `generations` is the course of a run that reported `scores`: one
/// generation more than there are scores, each score the best of the
/// generation of its number, and each generation but the first bred from the
/// one before it.
pub open spec fn is_lineage(
    generations: Seq<Seq<Seq<u32>>>,
    scores: Seq<u32>,
    task: &Task,
    breeding: Breeding,
    size: nat,
    length: nat,
) -> bool {
    &&& generations.len() == scores.len() + 1
    &&& forall|i: int|
        0 <= i < scores.len() ==> #[trigger] is_step(
            generations,
            scores,
            task,
            breeding,
            size,
            length,
            i,
        )
}

/// Every score is the cost of some selection, so none exceeds the total cost.
pub open spec fn scores_bounded(scores: Seq<u32>, task: &Task) -> bool {
    forall|i: int| 0 <= i < scores.len() ==> #[trigger] scores[i] <= total(task.costs())
}

/// The best score of a generation is the cost of one of its genomes, or 0:
/// no score of a run exceeds the total cost.
pub proof fn lemma_lineage_scores_bounded(
    generations: Seq<Seq<Seq<u32>>>,
    scores: Seq<u32>,
    task: &Task,
    breeding: Breeding,
    size: nat,
    length: nat,
)
    requires
        is_lineage(generations, scores, task, breeding, size, length),
        task.costs().len() == length,
    ensures
        scores_bounded(scores, task),
{
    assert forall|i: int| 0 <= i < scores.len() implies #[trigger] scores[i] <= total(
        task.costs(),
    ) by {
        assert(is_step(generations, scores, task, breeding, size, length, i));
        let rows = generations[i];
        let r = choose|r: int|
            0 <= r < rows.len() && #[trigger] fitness(rows[r], task) == scores[i] as nat;
        lemma_dot_bounded(rows[r], task.costs());
    }
}

/// The population size and the genome length of the first generation are
/// those of every generation of a run, however many there are.
pub proof fn lemma_lineage_keeps_dimensions(
    generations: Seq<Seq<Seq<u32>>>,
    scores: Seq<u32>,
    task: &Task,
    breeding: Breeding,
    size: nat,
    length: nat,
)
    requires
        is_lineage(generations, scores, task, breeding, size, length),
        is_generation(generations[0], size, length),
    ensures
        forall|i: int|
            0 <= i < generations.len() ==> is_generation(#[trigger] generations[i], size, length),
{
    assert forall|i: int| 0 <= i < generations.len() implies is_generation(
        #[trigger] generations[i],
        size,
        length,
    ) by {
        if i > 0 {
            assert(is_step(generations, scores, task, breeding, size, length, i - 1));
        }
    }
}

/// Which cutting points a plan lets a run breed with.
pub open spec fn plan_allows(
    config: &AlgorithmConfiguration,
    item_count: usize,
    cutting_point: Option<usize>,
) -> bool {
    match cutting_plan(config, item_count) {
        CuttingPlan::Fixed => cutting_point == Some(config.cutting_point),
        CuttingPlan::Random => cutting_point.is_none(),
        CuttingPlan::Recovered => cutting_point.is_some() && cutting_point.unwrap() < item_count,
        CuttingPlan::Rejected => false,
    }
}

impl AlgorithmConfiguration {
    /// What a run asks of its inputs: a consistent task whose totals fit a
    /// `u32`; a population whose cells can be counted; a positive density; a
    /// mutation rate of at most one whole; and, where a generation is to be
    /// produced, a genome to evolve and a tournament that the population can
    /// fill. A drawn cutting point needs a genome of at least one gene.
    pub open spec fn admissible(&self, task: &Task) -> bool {
        &&& task.wf()
        &&& task.sums_fit()
        &&& self.population_size * task.number_of_objects <= usize::MAX
        &&& self.density >= 1
        &&& self.mutation_rate.wf()
        &&& self.iterations > 0 ==> self.population_size > 0 && self.tournament_size
            <= self.population_size
        &&& self.iterations > 0 && cutting_plan(self, task.number_of_objects)
            == CuttingPlan::Random ==> task.number_of_objects > 0
        &&& cutting_plan(self, task.number_of_objects) == CuttingPlan::Recovered
            ==> task.number_of_objects > 0
    }

    /// Whether a run can be started on the task.
    pub fn is_admissible(&self, task: &Task) -> (ok: bool)
        ensures
            ok == self.admissible(task),
    {
        let plan = plan_cutting(self, task.number_of_objects);
        task.is_consistent() && task.has_fitting_sums() && self.population_size.checked_mul(
            task.number_of_objects,
        ).is_some() && self.density >= 1 && self.mutation_rate.millionths <= crate::rate::RATE_SCALE
            && (self.iterations == 0 || (self.population_size > 0 && self.tournament_size
            <= self.population_size)) && (self.iterations == 0 || plan != CuttingPlan::Random
            || task.number_of_objects > 0) && (plan != CuttingPlan::Recovered
            || task.number_of_objects > 0)
    }
}

/// Decides where the crossovers of a run cut.
pub fn plan_cutting(config: &AlgorithmConfiguration, item_count: usize) -> (plan: CuttingPlan)
    ensures
        plan == cutting_plan(config, item_count),
{
    if config.use_random_cutting_point {
        CuttingPlan::Random
    } else if config.cutting_point < item_count {
        CuttingPlan::Fixed
    } else if config.try_recover_from_barrier_overflow {
        CuttingPlan::Recovered
    } else {
        CuttingPlan::Rejected
    }
}

/// Produces `iterations` generations in turn and collects the best score of
/// each generation that was replaced, in order. `cutting_point` is the point
/// of every crossover, or `None` where each draws its own.
pub fn run_generations(
    population: &mut Population,
    workbench: &mut Grid,
    task: &Task,
    tournament_size: usize,
    crossover_rate: Rate,
    cutting_point: Option<usize>,
    mutation_rate: Rate,
    iterations: usize,
) -> (result: Result<Vec<u32>, EvolveError>)
    requires
        iterations > 0 ==> old(population).can_evolve(task, tournament_size, mutation_rate),
        iterations > 0 && cutting_point.is_none() ==> old(population).genome_len() > 0,
    ensures
        result.is_ok() <==> iterations == 0 || old(population).fits(*old(workbench)),
        result.is_err() ==> result == Err::<Vec<u32>, EvolveError>(EvolveError::DimensionMismatch)
            && *final(population) == *old(population) && *final(workbench) == *old(workbench),
        iterations == 0 ==> *final(population) == *old(population) && *final(workbench) == *old(
            workbench,
        ),
        result.is_ok() ==> {
            let scores = result.unwrap();
            &&& scores.len() == iterations
            &&& final(population)@.len() == old(population)@.len()
            &&& final(population).genome_len() == old(population).genome_len()
            &&& old(population).wf() ==> final(population).wf()
            &&& exists|generations: Seq<Seq<Seq<u32>>>|
                {
                    &&& #[trigger] is_lineage(
                        generations,
                        scores@,
                        task,
                        (Breeding { tournament_size, crossover_rate, cutting_point, mutation_rate }),
                        old(population)@.len(),
                        old(population).genome_len(),
                    )
                    &&& generations[0] == old(population)@
                    &&& generations.last() == final(population)@
                }
        },
{
    let ghost breeding = Breeding { tournament_size, crossover_rate, cutting_point, mutation_rate };
    let ghost size = population@.len();
    let ghost length = population.genome_len();
    let ghost mut lineage: Seq<Seq<Seq<u32>>> = seq![population@];
    let mut results: Vec<u32> = Vec::new();
    let mut i: usize = 0;
    while i < iterations
        invariant
            i <= iterations,
            results.len() == i,
            breeding == (Breeding { tournament_size, crossover_rate, cutting_point, mutation_rate }),
            size == old(population)@.len(),
            length == old(population).genome_len(),
            iterations > 0 ==> population.can_evolve(task, tournament_size, mutation_rate),
            iterations > 0 && cutting_point.is_none() ==> population.genome_len() > 0,
            i == 0 ==> *population == *old(population) && *workbench == *old(workbench),
            i > 0 ==> population.fits(*workbench) && old(population).fits(*old(workbench)),
            population@.len() == size,
            population.genome_len() == length,
            old(population).wf() ==> population.wf(),
            is_lineage(lineage, results@, task, breeding, size, length),
            lineage[0] == old(population)@,
            lineage.last() == population@,
        decreases iterations - i,
    {
        let ghost parents = population@;
        let ghost reported = results@;
        let ghost course = lineage;
        let step = match cutting_point {
            Some(cut) => population.evolve_generation(
                task,
                tournament_size,
                crossover_rate,
                cut,
                mutation_rate,
                workbench,
            ),
            None => population.evolve_generation_with_random_barrier(
                task,
                tournament_size,
                crossover_rate,
                mutation_rate,
                workbench,
            ),
        };
        match step {
            Err(e) => {
                return Err(e);
            },
            Ok(best) => {
                results.push(best);
                proof {
                    lineage = course.push(population@);
                    assert(is_generation(parents, size, length));
                    assert(is_generation(population@, size, length));
                    assert(succeeds(parents, population@, task, breeding));
                    assert forall|j: int| 0 <= j < results@.len() implies #[trigger] is_step(
                        lineage,
                        results@,
                        task,
                        breeding,
                        size,
                        length,
                        j,
                    ) by {
                        if j < reported.len() {
                            assert(is_step(course, reported, task, breeding, size, length, j));
                            assert(results@[j] == reported[j]);
                            assert(lineage[j] == course[j]);
                            assert(lineage[j + 1] == course[j + 1]);
                        } else {
                            assert(lineage[j] == parents);
                            assert(lineage[j + 1] == population@);
                        }
                    }
                }
            },
        }
        i = i + 1;
    }
    Ok(results)
}

/// Runs the search on a task: a random first generation, then
/// `config.iterations` generations, each bred from the one before. Returns the
/// best score of every generation that was replaced, in order.
pub fn evolve(task: &Task, config: &AlgorithmConfiguration) -> (result: Result<
    Vec<u32>,
    EvolveError,
>)
    requires
        config.admissible(task),
    ensures
        result.is_err() <==> cutting_plan(config, task.number_of_objects) == CuttingPlan::Rejected,
        result.is_err() ==> result == Err::<Vec<u32>, EvolveError>(EvolveError::Configuration),
        result.is_ok() ==> {
            let scores = result.unwrap();
            &&& scores.len() == config.iterations
            &&& scores_bounded(scores@, task)
            &&& exists|generations: Seq<Seq<Seq<u32>>>, cutting_point: Option<usize>|
                {
                    &&& plan_allows(config, task.number_of_objects, cutting_point)
                    &&& #[trigger] is_lineage(
                        generations,
                        scores@,
                        task,
                        (Breeding {
                            tournament_size: config.tournament_size,
                            crossover_rate: config.crossover_rate,
                            cutting_point,
                            mutation_rate: config.mutation_rate,
                        }),
                        config.population_size as nat,
                        task.number_of_objects as nat,
                    )
                    &&& is_generation(
                        generations[0],
                        config.population_size as nat,
                        task.number_of_objects as nat,
                    )
                    &&& forall|r: int|
                        0 <= r < generations[0].len() ==> is_drawn(
                            #[trigger] generations[0][r],
                            config.density,
                        )
                }
        },
{
    let cutting_point: Option<usize> = match plan_cutting(config, task.number_of_objects) {
        CuttingPlan::Fixed => Some(config.cutting_point),
        CuttingPlan::Random => None,
        CuttingPlan::Recovered => {
            let mut rng = local_rng();
            Some(draw_below(&mut rng, task.number_of_objects))
        },
        CuttingPlan::Rejected => {
            return Err(EvolveError::Configuration);
        },
    };
    let mut population = Population::generate_initial_population(
        config.population_size,
        task.number_of_objects,
        config.density,
    );
    let mut workbench = population.workbench();
    let ghost first = population@;
    let result = run_generations(
        &mut population,
        &mut workbench,
        task,
        config.tournament_size,
        config.crossover_rate,
        cutting_point,
        config.mutation_rate,
        config.iterations,
    );
    proof {
        if result.is_ok() {
            let breeding = Breeding {
                tournament_size: config.tournament_size,
                crossover_rate: config.crossover_rate,
                cutting_point,
                mutation_rate: config.mutation_rate,
            };
            let size = config.population_size as nat;
            let length = task.number_of_objects as nat;
            let generations = choose|generations: Seq<Seq<Seq<u32>>>|
                {
                    &&& #[trigger] is_lineage(
                        generations,
                        result.unwrap()@,
                        task,
                        breeding,
                        size,
                        length,
                    )
                    &&& generations[0] == first
                    &&& generations.last() == population@
                };
            lemma_lineage_scores_bounded(generations, result.unwrap()@, task, breeding, size, length);
            assert(is_generation(generations[0], size, length));
            assert(plan_allows(config, task.number_of_objects, cutting_point));
        }
    }
    result
}

} // verus!
