//! Tests of the inference network and the genetic operators.
use neuro_snake::game::Direction;
use neuro_snake::genetic::{
    best_of, crossover_networks, get_top_n, mutate, mutate_with, next_generation_networks,
    pick_neuron_with, tournament_selection,
};
use neuro_snake::perceptron::{Layer, Network, Neuron};
use neuro_snake::world::{Apple, World};
use neuro_snake::game::Point;
use neuro_snake::snake::Snake;
use neuro_snake::{CHANCE_DENOM, INPUT_LEN, SCALE};

fn zero_neuron(bias: i64, fan_in: usize) -> Neuron {
    Neuron { bias, weights: vec![0; fan_in] }
}

fn bias_network(biases: &[i64], fan_in: usize) -> Network {
    Network {
        layers: vec![Layer { neurons: biases.iter().map(|b| zero_neuron(*b, fan_in)).collect() }],
    }
}

fn dummy_world(fitness: usize, tag: i64) -> World {
    World {
        alive: false,
        last_apple_time: 0,
        life_time: 0,
        score: 0,
        snake: Snake { points: vec![Point { x: 5, y: 5 }], dir: Point { x: 0, y: 0 } },
        apple: Apple { position: Point { x: 3, y: 3 } },
        width: 10,
        height: 10,
        network: bias_network(&[tag, 0, 0, 0], 2),
        fitness_score: fitness,
    }
}

#[test]
fn propagate_output_length_matches_final_layer() {
    let net = Network {
        layers: vec![
            Layer { neurons: (0..6).map(|_| zero_neuron(100, 3)).collect() },
            Layer { neurons: (0..4).map(|_| zero_neuron(200, 6)).collect() },
        ],
    };
    let out = net.propagate(vec![7, -9, 1_000_000]);
    assert_eq!(out.len(), 4);
}

#[test]
fn zero_weight_neuron_outputs_rectified_bias() {
    let n = zero_neuron(437, 4);
    assert_eq!(n.propagate(&vec![9, -55, 1_000_000_000, 3]), 437);
    let m = zero_neuron(-437, 4);
    assert_eq!(m.propagate(&vec![9, -55, 1_000_000_000, 3]), 0);
}

#[test]
fn neuron_weighted_sum_exact_value() {
    // (2.0 * 0.5) + (3.0 * -0.25) + bias 0.1 = 1.0 - 0.75 + 0.1 = 0.35
    let n = Neuron { bias: 100, weights: vec![500, -250] };
    assert_eq!(n.propagate(&vec![2000, 3000]), 350);
}

#[test]
fn argmax_picks_highest_output() {
    // 0.1, 0.9, 0.2, 0.05 in fixed point: index 1 wins.
    let d = Direction::from_network(vec![100, 900, 200, 50]);
    assert!(matches!(d, Direction::Down));
}

#[test]
fn argmax_tie_lowest_index_wins() {
    // 0.5, 0.5, 0.1, 0.1: the first maximum wins.
    let d = Direction::from_network(vec![500, 500, 100, 100]);
    assert!(matches!(d, Direction::Up));
}

#[test]
fn mutation_full_rate_always_replaces() {
    let n = Neuron { bias: 7777, weights: vec![5000, -5000, 5000] };
    // Any chance below the denominator triggers at the full rate.
    let r = mutate_with(n, CHANCE_DENOM - 1, CHANCE_DENOM, vec![1, 2, 3], -4);
    assert_eq!(r.weights, vec![1, 2, 3]);
    assert_eq!(r.bias, -4);
}

#[test]
fn mutation_zero_rate_never_replaces() {
    let n = Neuron { bias: 7777, weights: vec![5000, -5000, 5000] };
    let r = mutate_with(n, 0, 0, vec![1, 2, 3], -4);
    assert_eq!(r.weights, vec![5000, -5000, 5000]);
    assert_eq!(r.bias, 7777);
    let n2 = Neuron { bias: 7777, weights: vec![5000, -5000, 5000] };
    let r2 = mutate(n2, 0);
    assert_eq!(r2.weights, vec![5000, -5000, 5000]);
    assert_eq!(r2.bias, 7777);
}

#[test]
fn mutation_full_rate_rerolls_into_unit_range() {
    // The preset values lie outside the unit range, so a reroll must have
    // happened; the fresh draws must lie within it.
    let n = Neuron { bias: 5000, weights: vec![5000, -5000, 5000] };
    let r = mutate(n, CHANCE_DENOM);
    assert_eq!(r.weights.len(), 3);
    for w in &r.weights {
        assert!(-SCALE <= *w && *w <= SCALE);
    }
    assert!(-SCALE <= r.bias && r.bias <= SCALE);
}

#[test]
fn crossover_pick_copies_whole_neuron_by_coin() {
    let a = Neuron { bias: 11, weights: vec![1, 2, 3] };
    let b = Neuron { bias: 22, weights: vec![4, 5, 6] };
    // A coin in the lower half copies the first parent whole.
    let low = pick_neuron_with(&a, &b, 0);
    assert_eq!(low.bias, 11);
    assert_eq!(low.weights, vec![1, 2, 3]);
    let just_below = pick_neuron_with(&a, &b, CHANCE_DENOM / 2 - 1);
    assert_eq!(just_below.bias, 11);
    // A coin in the upper half copies the second parent whole.
    let at_half = pick_neuron_with(&a, &b, CHANCE_DENOM / 2);
    assert_eq!(at_half.bias, 22);
    assert_eq!(at_half.weights, vec![4, 5, 6]);
    let top = pick_neuron_with(&a, &b, CHANCE_DENOM - 1);
    assert_eq!(top.bias, 22);
}

#[test]
fn crossover_children_match_parent_structure() {
    let p1 = Network::create_random_network(vec![5, 3, 4]);
    let p2 = Network::create_random_network(vec![5, 3, 4]);
    for _ in 0..10 {
        let (c1, c2) = crossover_networks(&p1, &p2, CHANCE_DENOM / 2);
        for c in [&c1, &c2] {
            assert_eq!(c.layers.len(), 2);
            assert_eq!(c.layers[0].neurons.len(), 3);
            assert_eq!(c.layers[1].neurons.len(), 4);
            for n in &c.layers[0].neurons {
                assert_eq!(n.weights.len(), 5);
            }
            for n in &c.layers[1].neurons {
                assert_eq!(n.weights.len(), 3);
            }
        }
    }
}

#[test]
fn random_network_draws_lie_in_unit_range() {
    let net = Network::create_random_network(vec![4, 6, 2]);
    assert_eq!(net.layers.len(), 2);
    for layer in &net.layers {
        for n in &layer.neurons {
            assert!(-SCALE <= n.bias && n.bias <= SCALE);
            for w in &n.weights {
                assert!(-SCALE <= *w && *w <= SCALE);
            }
        }
    }
}

#[test]
fn empty_network_passes_input_through() {
    let net = Network::new_empty();
    assert_eq!(net.propagate(vec![4, -7, 12]), vec![4, -7, 12]);
    let single = Network::create_random_network(vec![5]);
    assert_eq!(single.layers.len(), 0);
    let empty_layer = Layer::new_empty();
    assert_eq!(empty_layer.propagate(vec![1, 2]).len(), 0);
}

#[test]
fn elitism_with_zero_count_returns_nothing() {
    let worlds: Vec<World> = (0..3).map(|i| dummy_world(i, i as i64)).collect();
    assert_eq!(get_top_n(&worlds, 0).len(), 0);
}

#[test]
fn elitism_on_equal_fitness_returns_distinct_genomes() {
    let worlds: Vec<World> = (0..5).map(|i| dummy_world(4, i as i64)).collect();
    let elites = get_top_n(&worlds, 3);
    let mut tags: Vec<i64> = elites.iter().map(|n| n.layers[0].neurons[0].bias).collect();
    tags.sort();
    tags.dedup();
    assert_eq!(tags.len(), 3);
}

#[test]
fn elitism_returns_top_three_fitness_genomes() {
    let fitness = [5usize, 1, 9, 3, 3, 7, 2, 8, 0, 4];
    let worlds: Vec<World> =
        fitness.iter().enumerate().map(|(i, f)| dummy_world(*f, i as i64)).collect();
    let elites = get_top_n(&worlds, 3);
    assert_eq!(elites.len(), 3);
    let mut tags: Vec<i64> = elites.iter().map(|n| n.layers[0].neurons[0].bias).collect();
    tags.sort();
    // Fitness 9, 8, 7 belong to members 2, 7 and 5.
    assert_eq!(tags, vec![2, 5, 7]);
}

#[test]
fn sample_winner_is_first_encountered_maximum() {
    let fitness = [5usize, 1, 9, 3, 3, 7, 2, 9, 0, 4];
    let worlds: Vec<World> =
        fitness.iter().enumerate().map(|(i, f)| dummy_world(*f, i as i64)).collect();
    assert_eq!(best_of(&worlds, &vec![0, 5, 3]), 5);
    // Members 7 and 2 tie at fitness 9: the one met first in the sample wins.
    assert_eq!(best_of(&worlds, &vec![1, 7, 2, 5]), 7);
}

#[test]
fn tournament_selection_returns_two_distinct_members() {
    let worlds: Vec<World> = (0..6).map(|i| dummy_world(i, i as i64)).collect();
    for _ in 0..20 {
        let (a, b) = tournament_selection(&worlds, 3);
        assert!(a < worlds.len());
        assert!(b < worlds.len());
        assert_ne!(a, b);
    }
}

#[test]
fn tournament_selection_terminates_on_identical_fitness() {
    let worlds: Vec<World> = (0..4).map(|i| dummy_world(7, i as i64)).collect();
    let (a, b) = tournament_selection(&worlds, 4);
    assert_ne!(a, b);
}

#[test]
fn full_generation_on_lethal_field() {
    // A 3x3 field: the only interior cell is the head's, so every move hits
    // the border and the whole population dies within one step.
    let mut worlds: Vec<World> = (0..4)
        .map(|_| World::new(3, 3, Network::create_random_network(vec![INPUT_LEN, 4])))
        .collect();
    worlds = worlds.into_iter().map(|w| w.tick()).collect();
    for w in &mut worlds {
        assert!(!w.alive);
        w.calculate_fitness_score();
    }
    let genomes = next_generation_networks(&worlds, 2, 2, CHANCE_DENOM / 50);
    assert_eq!(genomes.len(), 4);
    let next: Vec<World> = genomes.into_iter().map(|n| World::new(3, 3, n)).collect();
    assert_eq!(next.len(), 4);
    for w in &next {
        assert!(w.alive);
        assert_eq!(w.score, 0);
    }
}

#[test]
fn odd_remainder_offspring_is_dropped() {
    let worlds: Vec<World> = (0..5).map(|i| dummy_world(i, i as i64)).collect();
    // 5 members, 2 elites: 3 offspring slots round down to one pair.
    let genomes = next_generation_networks(&worlds, 2, 2, 0);
    assert_eq!(genomes.len(), 4);
}
