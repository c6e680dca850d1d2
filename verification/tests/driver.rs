use knapsack_ga::algorithm::{
    evolve, plan_cutting, run_generations, AlgorithmConfiguration, CuttingPlan,
};
use knapsack_ga::matrix::Grid;
use knapsack_ga::population::{EvolveError, Population};
use knapsack_ga::rate::Rate;
use knapsack_ga::task::Task;

fn configuration() -> AlgorithmConfiguration {
    AlgorithmConfiguration {
        iterations: 10,
        population_size: 20,
        crossover_rate: Rate { millionths: 800_000 },
        cutting_point: 2,
        mutation_rate: Rate { millionths: 200_000 },
        tournament_size: 4,
        try_recover_from_barrier_overflow: false,
        use_random_cutting_point: false,
        density: 2,
    }
}

fn task() -> Task {
    Task::from_args(5, 7, 3, vec![1, 2, 3, 4, 5], vec![1, 1, 1, 1, 1], vec![10, 20, 30, 40, 50])
}

fn rows_of(population: &Population) -> Vec<Vec<u32>> {
    (0..population.rows()).map(|r| population.genome(r)).collect()
}

#[test]
fn plan_uses_a_cutting_point_inside_the_genome() {
    let config = configuration();
    assert_eq!(plan_cutting(&config, 5), CuttingPlan::Fixed);
    assert_eq!(plan_cutting(&config, 3), CuttingPlan::Fixed);
}

#[test]
fn plan_refuses_a_cutting_point_outside_the_genome() {
    let config = configuration();
    assert_eq!(plan_cutting(&config, 2), CuttingPlan::Rejected);
    assert_eq!(plan_cutting(&config, 0), CuttingPlan::Rejected);
}

#[test]
fn plan_recovers_where_asked() {
    let mut config = configuration();
    config.try_recover_from_barrier_overflow = true;
    assert_eq!(plan_cutting(&config, 2), CuttingPlan::Recovered);
    assert_eq!(plan_cutting(&config, 3), CuttingPlan::Fixed);
}

#[test]
fn plan_in_random_mode_ignores_the_cutting_point() {
    let mut config = configuration();
    config.use_random_cutting_point = true;
    assert_eq!(plan_cutting(&config, 2), CuttingPlan::Random);
    assert_eq!(plan_cutting(&config, 5), CuttingPlan::Random);
    config.try_recover_from_barrier_overflow = true;
    assert_eq!(plan_cutting(&config, 1), CuttingPlan::Random);
}

#[test]
fn admissible_configuration_is_recognised() {
    let config = configuration();
    assert!(config.is_admissible(&task()));
    let mut zero_density = configuration();
    zero_density.density = 0;
    assert!(!zero_density.is_admissible(&task()));
    let mut crowded = configuration();
    crowded.tournament_size = 21;
    assert!(!crowded.is_admissible(&task()));
    crowded.iterations = 0;
    assert!(crowded.is_admissible(&task()));
    let mut nobody = configuration();
    nobody.population_size = 0;
    nobody.tournament_size = 0;
    assert!(!nobody.is_admissible(&task()));
    let mut overdone = configuration();
    overdone.mutation_rate = Rate { millionths: 1_000_001 };
    assert!(!overdone.is_admissible(&task()));
    let lopsided = Task::from_args(5, 7, 3, vec![1, 2], vec![1; 5], vec![1; 5]);
    assert!(!config.is_admissible(&lopsided));
    let heavy = Task::from_args(2, 7, 3, vec![u32::MAX, 1], vec![1; 2], vec![1; 2]);
    assert!(!config.is_admissible(&heavy));
    let empty = Task::from_args(0, 7, 3, Vec::new(), Vec::new(), Vec::new());
    let mut recovering = configuration();
    recovering.try_recover_from_barrier_overflow = true;
    assert!(!recovering.is_admissible(&empty));
    let mut random = configuration();
    random.use_random_cutting_point = true;
    assert!(!random.is_admissible(&empty));
}

#[test]
fn evolve_with_no_iterations_returns_nothing() {
    let mut config = configuration();
    config.iterations = 0;
    assert!(config.is_admissible(&task()));
    assert_eq!(evolve(&task(), &config), Ok(Vec::new()));
}

#[test]
fn evolve_returns_one_score_per_generation() {
    let config = configuration();
    assert!(config.is_admissible(&task()));
    let scores = evolve(&task(), &config).unwrap();
    assert_eq!(scores.len(), 10);
    assert!(scores.iter().all(|&s| s <= 150));
}

#[test]
fn evolve_with_random_cutting_point_runs() {
    let mut config = configuration();
    config.use_random_cutting_point = true;
    config.cutting_point = 99;
    assert!(config.is_admissible(&task()));
    let scores = evolve(&task(), &config).unwrap();
    assert_eq!(scores.len(), 10);
}

#[test]
fn evolve_recovers_from_a_cutting_point_outside_the_genome() {
    let mut config = configuration();
    config.cutting_point = 5;
    config.try_recover_from_barrier_overflow = true;
    assert!(config.is_admissible(&task()));
    let scores = evolve(&task(), &config).unwrap();
    assert_eq!(scores.len(), 10);
}

#[test]
fn evolve_refuses_a_cutting_point_outside_the_genome() {
    let mut config = configuration();
    config.cutting_point = 5;
    assert!(config.is_admissible(&task()));
    assert_eq!(evolve(&task(), &config), Err(EvolveError::Configuration));
    config.iterations = 0;
    assert_eq!(evolve(&task(), &config), Err(EvolveError::Configuration));
}

#[test]
fn evolve_finds_the_only_feasible_cost() {
    let task = Task::from_args(1, 1, 1, vec![1], vec![1], vec![9]);
    let mut config = configuration();
    config.cutting_point = 0;
    config.population_size = 30;
    config.mutation_rate = Rate { millionths: 0 };
    let scores = evolve(&task, &config).unwrap();
    assert!(scores.iter().all(|&s| s == 0 || s == 9));
}

#[test]
fn no_generations_leave_the_population_alone() {
    let rows: Vec<Vec<u32>> = vec![vec![1, 0, 1, 0, 1], vec![0, 1, 0, 1, 0]];
    let mut population = Population::from_rows(&rows, 5).unwrap();
    let mut workbench = population.workbench();
    let rate = Rate { millionths: 500_000 };
    let scores =
        run_generations(&mut population, &mut workbench, &task(), 1, rate, Some(2), rate, 0);
    assert_eq!(scores, Ok(Vec::new()));
    assert_eq!(rows_of(&population), rows);
    assert_eq!(workbench.copy_row(0), Some(vec![0; 5]));
    let mut other = Grid::zeros(1, 1).unwrap();
    let scores = run_generations(&mut population, &mut other, &task(), 1, rate, None, rate, 0);
    assert_eq!(scores, Ok(Vec::new()));
    assert_eq!(rows_of(&population), rows);
}

#[test]
fn generations_report_the_best_of_the_first_population_first() {
    let rows: Vec<Vec<u32>> = vec![vec![1, 0, 1, 0, 0], vec![0, 1, 0, 0, 0], vec![1, 1, 1, 1, 1]];
    let mut population = Population::from_rows(&rows, 5).unwrap();
    let mut workbench = population.workbench();
    let rate = Rate { millionths: 500_000 };
    let scores =
        run_generations(&mut population, &mut workbench, &task(), 2, rate, Some(2), rate, 6)
            .unwrap();
    assert_eq!(scores.len(), 6);
    assert_eq!(scores[0], 40);
    assert_eq!((population.rows(), population.cols()), (3, 5));
    assert_eq!((workbench.height(), workbench.width()), (3, 5));
}

#[test]
fn generations_fail_on_a_workbench_of_other_dimensions() {
    let rows: Vec<Vec<u32>> = vec![vec![1, 0, 1, 0, 0], vec![0, 1, 0, 0, 0]];
    let mut population = Population::from_rows(&rows, 5).unwrap();
    let mut workbench = Grid::zeros(2, 4).unwrap();
    let rate = Rate { millionths: 500_000 };
    let scores =
        run_generations(&mut population, &mut workbench, &task(), 2, rate, None, rate, 3);
    assert_eq!(scores, Err(EvolveError::DimensionMismatch));
    assert_eq!(rows_of(&population), rows);
}
