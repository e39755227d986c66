use std::collections::BTreeMap;

use rand::distributions::Distribution;
use rand::distributions::WeightedIndex;
use rand::Rng;
use rand::SeedableRng;
use rand_chacha::ChaCha8Rng;

use natural_selection::Chromosome;
use natural_selection::Error;
use natural_selection::GaussianMutation;
use natural_selection::GeneticAlgorithm;
use natural_selection::Individual;
use natural_selection::Layer;
use natural_selection::LayerTopology;
use natural_selection::MutationMethod;
use natural_selection::Network;
use natural_selection::Neuron;
use natural_selection::RandomSource;
use natural_selection::RouletteWheelSelection;
use natural_selection::Scalar;
use natural_selection::SelectionMethod;
use natural_selection::UniformCrossover;
use natural_selection::CrossoverMethod;

#[derive(Clone, Copy, Debug, PartialEq)]
struct GeneF32(f32);

impl Scalar for GeneF32 {
    fn zero() -> Self {
        GeneF32(0.0)
    }
    fn plus(self, other: Self) -> Self {
        GeneF32(self.0 + other.0)
    }
    fn times(self, other: Self) -> Self {
        GeneF32(self.0 * other.0)
    }
    fn relu(self) -> Self {
        GeneF32(self.0.max(0.0))
    }
    fn quantize(self) -> u32 {
        ((self.0 + 1000.0) * 1000.0).round() as u32
    }
    fn dequantize(value: u32) -> Self {
        GeneF32(value as f32 / 1000.0 - 1000.0)
    }
}

struct ChaChaSource {
    rng: ChaCha8Rng,
}

impl RandomSource<GeneF32> for ChaChaSource {
    fn next_coin(&mut self) -> bool {
        self.rng.gen_bool(0.5)
    }
    fn next_ratio(&mut self, numer: u32, denom: u32) -> bool {
        self.rng.gen_bool(numer as f64 / denom as f64)
    }
    fn next_index(&mut self, bound: usize) -> usize {
        self.rng.gen_range(0..bound)
    }
    fn next_weighted(&mut self, weights: &Vec<GeneF32>) -> Option<usize> {
        match WeightedIndex::new(weights.iter().map(|g| g.0)) {
            Ok(dist) => Some(dist.sample(&mut self.rng)),
            Err(_) => None,
        }
    }
    fn next_gene(&mut self) -> GeneF32 {
        GeneF32(self.rng.gen_range(-1.0..=1.0))
    }
    fn next_perturbed(&mut self, gene: GeneF32, coefficient: GeneF32, negative: bool) -> GeneF32 {
        let sign: f32 = if negative { -1.0 } else { 1.0 };
        GeneF32(gene.0 + sign * coefficient.0 * self.rng.gen::<f32>())
    }
}

fn seeded() -> ChaChaSource {
    ChaChaSource { rng: ChaCha8Rng::from_seed(Default::default()) }
}

fn approx_eq(a: f32, b: f32) -> bool {
    let diff = (a - b).abs();
    diff <= f32::EPSILON || diff <= f32::EPSILON * a.abs().max(b.abs())
}

fn genes_f32(values: &[f32]) -> Vec<GeneF32> {
    values.iter().map(|&v| GeneF32(v)).collect()
}

#[derive(Clone, Debug)]
struct TestIndividual {
    chromosome: Chromosome<GeneF32>,
    fitness: f32,
}

impl TestIndividual {
    fn new(fitness: f32) -> Self {
        TestIndividual { chromosome: Chromosome::from_genes(Vec::new()), fitness }
    }
}

impl Individual<GeneF32> for TestIndividual {
    fn create(chromosome: Chromosome<GeneF32>) -> Self {
        let mut fitness: f32 = 0.0;
        for gene in chromosome.genes() {
            fitness += gene.0;
        }
        TestIndividual { chromosome, fitness }
    }
    fn fitness(&self) -> GeneF32 {
        GeneF32(self.fitness)
    }
    fn chromosome(&self) -> &Chromosome<GeneF32> {
        &self.chromosome
    }
}

fn individual(genes: &[f32]) -> TestIndividual {
    TestIndividual::create(Chromosome::from_genes(genes_f32(genes)))
}

fn chromosome() -> Chromosome<GeneF32> {
    Chromosome::from_genes(genes_f32(&[3.0, 1.0, 2.0]))
}

#[test]
fn chromosome_test() {
    assert_eq!(chromosome().len(), 3);
}

#[test]
fn chromosome_index_test() {
    let chromosome = chromosome();

    assert_eq!(chromosome.get(0).0, 3.0);
    assert_eq!(chromosome.get(1).0, 1.0);
    assert_eq!(chromosome.get(2).0, 2.0);
}

#[test]
fn chromosome_from_genes_test() {
    let chromosome: Chromosome<GeneF32> = Chromosome::from_genes(genes_f32(&[3.0, 1.0, 2.0]));

    assert_eq!(chromosome.get(0).0, 3.0);
    assert_eq!(chromosome.get(1).0, 1.0);
    assert_eq!(chromosome.get(2).0, 2.0);
}

#[test]
fn chromosome_into_genes_test() {
    let genes: Vec<_> = chromosome().into_genes();

    assert_eq!(genes.len(), 3);
    assert_eq!(genes[0].0, 3.0);
    assert_eq!(genes[1].0, 1.0);
    assert_eq!(genes[2].0, 2.0);
}

#[test]
fn chromosome_genes_view_test() {
    let chromosome = chromosome();
    let genes = chromosome.genes();

    assert_eq!(genes.len(), 3);
    assert_eq!(genes[0].0, 3.0);
    assert_eq!(genes[1].0, 1.0);
    assert_eq!(genes[2].0, 2.0);
}

#[test]
fn chromosome_set_test() {
    let mut chromosome = chromosome();

    for i in 0..chromosome.len() {
        let gene = chromosome.get(i);
        chromosome.set(i, GeneF32(gene.0 * 10.0));
    }

    let genes = chromosome.genes();
    assert_eq!(genes.len(), 3);
    assert_eq!(genes[0].0, 30.0);
    assert_eq!(genes[1].0, 10.0);
    assert_eq!(genes[2].0, 20.0);
}

#[test]
fn chromosome_to_dna_test() {
    let dna = Chromosome::from_genes(
        genes_f32(&[-100.0, -50.0, 0.0, 1.0, 2.0, 3.0, 50.0, 100.0]),
    ).to_dna();
    assert_eq!(dna, "guRK-gNrm-hfQO-hgka-hgDm-hgWy-hyqq-hQPS");
}

#[test]
fn chromosome_from_dna_test() {
    let actual =
        Chromosome::<GeneF32>::from_dna("guRK-gNrm-hfQO-hgka-hgDm-hgWy-hyqq-hQPS").unwrap();
    let expected = [-100.0f32, -50.0, 0.0, 1.0, 2.0, 3.0, 50.0, 100.0];

    assert_eq!(actual.len(), expected.len());
    for i in 0..expected.len() {
        assert!(approx_eq(actual.get(i).0, expected[i]));
    }
}

#[test]
fn chromosome_dna_round_trip_with_negatives() {
    let genes = [-1.5f32, 0.25, 3.75, -999.999, 0.0];
    let original = Chromosome::from_genes(genes_f32(&genes));
    let decoded = Chromosome::<GeneF32>::from_dna(&original.to_dna()).unwrap();

    assert_eq!(decoded.len(), genes.len());
    for i in 0..genes.len() {
        assert!((decoded.get(i).0 - genes[i]).abs() <= 0.001);
    }
}

#[test]
fn chromosome_from_dna_rejects_bad_digit() {
    assert_eq!(
        Chromosome::<GeneF32>::from_dna("ab-c!d").err(),
        Some(Error::InvalidDna),
    );
}

fn mutate(chance_num: u32, chance_den: u32, coefficient: f32) -> Vec<f32> {
    let mut child = Chromosome::from_genes(genes_f32(&[1.0, 2.0, 3.0, 4.0, 5.0]));
    let mut rng = seeded();
    let method = GaussianMutation::new(chance_num, chance_den, GeneF32(coefficient)).unwrap();
    method.mutate(&mut rng, &mut child);

    child.into_genes().into_iter().map(|g| g.0).collect()
}

fn assert_all_approx(actual: &[f32], expected: &[f32]) {
    assert_eq!(actual.len(), expected.len());
    for i in 0..expected.len() {
        assert!(approx_eq(actual[i], expected[i]));
    }
}

#[test]
fn zero_chance_zero_coefficient_chromosome_should_not_be_modified() {
    let child = mutate(0, 1, 0.0);
    assert_all_approx(&child, &[1.0, 2.0, 3.0, 4.0, 5.0]);
}

#[test]
fn zero_chance_nonzero_coefficient_chromosome_should_not_be_modified() {
    let child = mutate(0, 1, 1.0);
    assert_all_approx(&child, &[1.0, 2.0, 3.0, 4.0, 5.0]);
}

#[test]
fn fifty_percent_chance_zero_coefficient_chromosome_should_not_be_modified() {
    let child = mutate(1, 2, 0.0);
    assert_all_approx(&child, &[1.0, 2.0, 3.0, 4.0, 5.0]);
}

#[test]
fn chromosome_should_be_slightly_modified() {
    let child = mutate(1, 2, 0.5);
    assert_all_approx(&child, &[1.0, 1.7756249, 3.0, 4.1596804, 5.0]);
}

#[test]
fn max_chance_zero_coefficient_chromosome_should_not_be_modified() {
    let child = mutate(1, 1, 0.0);
    assert_all_approx(&child, &[1.0, 2.0, 3.0, 4.0, 5.0]);
}

#[test]
fn chromosome_is_totally_modified() {
    let child = mutate(1, 1, 0.5);
    assert_all_approx(&child, &[1.4545316, 2.1162078, 2.7756248, 3.9505124, 4.638691]);
    for i in 0..child.len() {
        assert!(child[i] != [1.0, 2.0, 3.0, 4.0, 5.0][i]);
    }
}

#[test]
fn mutation_invalid_chance_fails() {
    assert!(matches!(
        GaussianMutation::new(2, 1, GeneF32(0.5)),
        Err(Error::InvalidConfig)
    ));
    assert!(matches!(
        GaussianMutation::new(1, 0, GeneF32(0.5)),
        Err(Error::InvalidConfig)
    ));
}

#[test]
fn roulette_test() {
    let mut rng = seeded();
    let method = RouletteWheelSelection::new();

    let population = vec![
        TestIndividual::new(2.0),
        TestIndividual::new(1.0),
        TestIndividual::new(4.0),
        TestIndividual::new(3.0),
    ];

    let mut actual_histogram: BTreeMap<i32, i32> = BTreeMap::new();
    for _ in 0..100 {
        let index = method.select(&mut rng, &population).unwrap();
        *actual_histogram
            .entry(population[index].fitness().0 as i32)
            .or_insert(0) += 1;
    }

    let mut expected_histogram: BTreeMap<i32, i32> = BTreeMap::new();
    expected_histogram.insert(1, 11);
    expected_histogram.insert(2, 18);
    expected_histogram.insert(3, 21);
    expected_histogram.insert(4, 50);

    assert_eq!(actual_histogram, expected_histogram);
}

#[test]
fn selection_empty_population_fails() {
    let mut rng = seeded();
    let population: Vec<TestIndividual> = Vec::new();
    assert_eq!(
        RouletteWheelSelection::new().select(&mut rng, &population),
        Err(Error::EmptyPopulation)
    );
}

#[test]
fn selection_all_zero_fitness_falls_back_to_uniform() {
    let mut rng = seeded();
    let population = vec![
        TestIndividual::new(0.0),
        TestIndividual::new(0.0),
        TestIndividual::new(0.0),
    ];
    let index = RouletteWheelSelection::new()
        .select(&mut rng, &population)
        .unwrap();
    assert!(index < population.len());
}

#[test]
fn crossover_child_takes_each_gene_from_a_parent() {
    let mut rng = seeded();
    let parent_a = Chromosome::from_genes(genes_f32(&[1.0, 2.0, 3.0, 4.0]));
    let parent_b = Chromosome::from_genes(genes_f32(&[10.0, 20.0, 30.0, 40.0]));
    let child = UniformCrossover::new()
        .crossover(&mut rng, &parent_a, &parent_b)
        .unwrap();

    assert_eq!(child.len(), parent_a.len());
    for i in 0..child.len() {
        let g = child.get(i).0;
        assert!(g == parent_a.get(i).0 || g == parent_b.get(i).0);
    }
}

#[test]
fn crossover_mismatched_lengths_fail() {
    let mut rng = seeded();
    let parent_a = Chromosome::from_genes(genes_f32(&[1.0, 2.0]));
    let parent_b = Chromosome::from_genes(genes_f32(&[1.0, 2.0, 3.0]));
    assert!(matches!(
        UniformCrossover::new().crossover(&mut rng, &parent_a, &parent_b),
        Err(Error::ArityMismatch)
    ));
}

#[test]
fn lib_test() {
    let mut rng = seeded();
    let ga = GeneticAlgorithm::new(
        RouletteWheelSelection::new(),
        UniformCrossover::default(),
        GaussianMutation::new(1, 2, GeneF32(0.5)).unwrap(),
    );

    let mut population = vec![
        individual(&[0.0, 0.0, 0.0]), //0.0
        individual(&[1.0, 1.0, 1.0]), //3.0
        individual(&[1.0, 2.0, 1.0]), //4.0
        individual(&[1.0, 2.0, 4.0]), //7.0
    ];
    let initial_fitness: f32 = population.iter().map(|i| i.fitness().0).sum();
    assert_eq!(initial_fitness, 14.0);

    for _ in 0..10 {
        population = ga.evolve(&mut rng, &population).unwrap();
    }

    let expected_population = [
        [0.4476949f32, 2.0648358, 4.3058133],
        [1.2126867, 1.5538777, 2.886911],
        [1.0617678, 2.265739, 4.428764],
        [0.95909685, 2.4618788, 4.024733],
    ];
    assert_eq!(population.len(), expected_population.len());
    for (member, expected) in population.iter().zip(expected_population.iter()) {
        let genes = member.chromosome().genes();
        assert_eq!(genes.len(), expected.len());
        for i in 0..expected.len() {
            assert!(approx_eq(genes[i].0, expected[i]));
        }
    }

    let final_fitness: f32 = population.iter().map(|i| i.fitness().0).sum();
    assert!(final_fitness > initial_fitness);
}

#[test]
fn evolve_empty_population_fails() {
    let mut rng = seeded();
    let ga = GeneticAlgorithm::new(
        RouletteWheelSelection::new(),
        UniformCrossover::new(),
        GaussianMutation::new(1, 2, GeneF32(0.5)).unwrap(),
    );
    let population: Vec<TestIndividual> = Vec::new();
    assert!(matches!(
        ga.evolve(&mut rng, &population),
        Err(Error::EmptyPopulation)
    ));
}

#[test]
fn evolve_preserves_population_size() {
    for size in 1..6usize {
        let mut rng = seeded();
        let ga = GeneticAlgorithm::new(
            RouletteWheelSelection::new(),
            UniformCrossover::new(),
            GaussianMutation::new(1, 2, GeneF32(0.5)).unwrap(),
        );
        let population: Vec<TestIndividual> =
            (0..size).map(|k| individual(&[k as f32, 1.0, 2.0])).collect();
        let next = ga.evolve(&mut rng, &population).unwrap();
        assert_eq!(next.len(), population.len());
    }
}

#[test]
fn evolve_is_deterministic_for_a_fixed_seed() {
    let mut outcomes: Vec<Vec<f32>> = Vec::new();
    for _ in 0..2 {
        let mut rng = seeded();
        let ga = GeneticAlgorithm::new(
            RouletteWheelSelection::new(),
            UniformCrossover::new(),
            GaussianMutation::new(1, 2, GeneF32(0.5)).unwrap(),
        );
        let mut population = vec![
            individual(&[0.0, 0.0, 0.0]),
            individual(&[1.0, 1.0, 1.0]),
            individual(&[1.0, 2.0, 1.0]),
            individual(&[1.0, 2.0, 4.0]),
        ];
        for _ in 0..10 {
            population = ga.evolve(&mut rng, &population).unwrap();
        }
        let flat: Vec<f32> = population
            .iter()
            .flat_map(|m| m.chromosome().genes().iter().map(|g| g.0))
            .collect();
        outcomes.push(flat);
    }
    assert_eq!(outcomes[0], outcomes[1]);
}

#[test]
fn test_neuron() {
    let mut rng = seeded();
    let neuron_a = Neuron::<GeneF32>::random(&mut rng, 4);

    assert!(approx_eq(neuron_a.bias.0, -0.6255188));
    let weights: Vec<f32> = neuron_a.weights.iter().map(|g| g.0).collect();
    assert_all_approx(&weights, &[0.67383957, 0.8181262, 0.26284897, 0.5238807]);
}

#[test]
fn lib_test_neuron() {
    let neuron = Neuron { bias: GeneF32(0.5), weights: genes_f32(&[-0.3, 0.8]) };

    assert!(approx_eq(
        neuron.propagate(&genes_f32(&[-10.0, -10.0])).unwrap().0,
        0.0
    ));

    assert!(approx_eq(
        neuron.propagate(&genes_f32(&[0.5, 1.0])).unwrap().0,
        (-0.3 * 0.5) + (0.8 * 1.0) + 0.5
    ));
}

#[test]
fn neuron_propagate_arity_mismatch_fails() {
    let neuron = Neuron { bias: GeneF32(0.5), weights: genes_f32(&[-0.3, 0.8]) };
    assert!(matches!(
        neuron.propagate(&genes_f32(&[1.0])),
        Err(Error::ArityMismatch)
    ));
}

#[test]
fn test_layer_propagate() {
    let mut rng = seeded();

    let layer = Layer::<GeneF32>::random(&mut rng, 5, 5);
    let inputs: Vec<GeneF32> = (0..5).map(|_| rng.next_gene()).collect();
    let results = layer.propagate(&inputs).unwrap();

    let outputs: Vec<f32> = results.iter().map(|g| g.0).collect();
    assert_all_approx(&outputs, &[0.93348336, 0.0, 0.0, 0.3035017, 0.0]);
}

#[test]
fn test_network_propagate() {
    let mut rng = seeded();

    let network = Network::<GeneF32>::random(
        &mut rng,
        &vec![
            LayerTopology { neurons: 8 },
            LayerTopology { neurons: 4 },
            LayerTopology { neurons: 3 },
        ],
    );

    let inputs: Vec<GeneF32> = (0..8).map(|_| GeneF32(rng.rng.gen_range(0.0..=1.0))).collect();
    let results = network.propagate(inputs).unwrap();

    let outputs: Vec<f32> = results.iter().map(|g| g.0).collect();
    assert_all_approx(&outputs, &[1.6144389, 0.0, 1.0972998]);
}

#[test]
fn network_propagate_arity_mismatch_fails() {
    let mut rng = seeded();
    let network = Network::<GeneF32>::random(
        &mut rng,
        &vec![LayerTopology { neurons: 2 }, LayerTopology { neurons: 2 }],
    );
    assert!(matches!(
        network.propagate(genes_f32(&[1.0, 2.0, 3.0])),
        Err(Error::ArityMismatch)
    ));
}

#[test]
fn test_dna_restore() {
    let topology = vec![LayerTopology { neurons: 3 }, LayerTopology { neurons: 2 }];
    let weights = [0.1f32, 0.2, 0.3, 0.4, 0.5, 0.6, 0.7, 0.7];

    let actual: Vec<f32> = Network::from_data(&topology, &genes_f32(&weights))
        .unwrap()
        .data()
        .into_iter()
        .map(|g| g.0)
        .collect();

    assert_all_approx(&actual, &weights);
}

#[test]
fn from_data_short_sequence_fails() {
    let topology = vec![LayerTopology { neurons: 3 }, LayerTopology { neurons: 2 }];
    assert!(matches!(
        Network::from_data(&topology, &genes_f32(&[0.1, 0.2, 0.3])),
        Err(Error::DataExhausted)
    ));
}

#[test]
fn from_data_leftover_values_fail() {
    let topology = vec![LayerTopology { neurons: 3 }, LayerTopology { neurons: 2 }];
    let weights = [0.1f32, 0.2, 0.3, 0.4, 0.5, 0.6, 0.7, 0.7, 0.9];
    assert!(matches!(
        Network::from_data(&topology, &genes_f32(&weights)),
        Err(Error::DataExhausted)
    ));
}
