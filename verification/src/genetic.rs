//! The genetic operators: per-neuron mutation, neuron-granular crossover,
//! tournament selection over population indices, elitism, and the production
//! of a full next-generation set of genomes.
use vstd::prelude::*;

use crate::perceptron::{
    lemma_model_same_wf, lemma_same_shape_from, net_model, neuron_model, same_shape, shape_from,
    Layer, Network, Neuron,
};
use crate::world::World;
use crate::{CHANCE_DENOM, INPUT_LEN, MAX_NODES, SCALE};

verus! {

/// Mutation triggers exactly when the drawn chance falls below the rate.
pub open spec fn mutate_triggers(chance: u32, rate: u32) -> bool {
    chance < rate
}

/// With the full rate every possible draw triggers mutation; with the zero
/// rate no draw does.
pub proof fn lemma_mutation_rate_extremes(chance: u32)
    requires
        chance < CHANCE_DENOM,
    ensures
        mutate_triggers(chance, CHANCE_DENOM),
        !mutate_triggers(chance, 0),
{
}

/// The deterministic core of mutation: when the drawn chance triggers, the
/// whole weight vector and the bias are replaced by the fresh draws as one
/// unit; otherwise the neuron is returned unchanged.
pub fn mutate_with(
    neuron: Neuron,
    chance: u32,
    rate: u32,
    new_weights: Vec<i64>,
    new_bias: i64,
) -> (r: Neuron)
    requires
        new_weights.len() == neuron.weights.len(),
    ensures
        mutate_triggers(chance, rate) ==> r.weights@ == new_weights@ && r.bias == new_bias,
        !mutate_triggers(chance, rate) ==> r == neuron,
        r.weights.len() == neuron.weights.len(),
{
    if chance < rate {
        Neuron { bias: new_bias, weights: new_weights }
    } else {
        neuron
    }
}

/// Mutates one neuron with the configured rate: one drawn chance gates the
/// reroll of the weights and of the bias together; on trigger both are
/// replaced by fresh uniform unit-range draws.
pub fn mutate(neuron: Neuron, mutation_rate: u32) -> (r: Neuron)
    requires
        neuron.wf(),
    ensures
        r.wf(),
        r.weights.len() == neuron.weights.len(),
        mutation_rate == 0 ==> r == neuron,
{
    let chance = crate::rng::rand_chance();
    let n = neuron.weights.len();
    let mut new_weights: Vec<i64> = Vec::new();
    for i in 0..n
        invariant
            new_weights.len() == i,
            forall|j: int| 0 <= j < i ==> -SCALE <= #[trigger] new_weights[j] <= SCALE,
    {
        new_weights.push(crate::rng::rand_unit());
    }
    let new_bias = crate::rng::rand_unit();
    mutate_with(neuron, chance, mutation_rate, new_weights, new_bias)
}

/// The deterministic core of the crossover pick: a drawn coin in the lower
/// half of the chance range copies the first parent's neuron, one in the
/// upper half the second's — the whole weight vector and bias as one
/// indivisible unit either way.
pub fn pick_neuron_with(neuron1: &Neuron, neuron2: &Neuron, coin: u32) -> (r: Neuron)
    ensures
        coin < CHANCE_DENOM / 2 ==> neuron_model(r) == neuron_model(*neuron1),
        coin >= CHANCE_DENOM / 2 ==> neuron_model(r) == neuron_model(*neuron2),
{
    if coin < CHANCE_DENOM / 2 {
        neuron1.clone()
    } else {
        neuron2.clone()
    }
}

/// Crossover at neuron granularity: a fair coin picks the whole neuron (its
/// weight vector and bias as one indivisible unit) from one parent or the
/// other — `pick_neuron_with` carries that choice exactly — and mutation is
/// applied to the result before it is returned.
fn crossover_neurons(neuron1: &Neuron, neuron2: &Neuron, mutation_rate: u32) -> (r: Neuron)
    requires
        neuron1.wf(),
        neuron2.wf(),
        neuron1.weights.len() == neuron2.weights.len(),
    ensures
        r.wf(),
        r.weights.len() == neuron1.weights.len(),
{
    let coin = crate::rng::rand_chance();
    let picked = pick_neuron_with(neuron1, neuron2, coin);
    proof {
        assert(picked.wf());
        assert(picked.weights.len() == neuron1.weights.len());
    }
    mutate(picked, mutation_rate)
}

/// Recombines two layers of equal shape, one fresh neuron per position.
fn crossover_layers(layer1: &Layer, layer2: &Layer, mutation_rate: u32) -> (r: Layer)
    requires
        layer1.wf(),
        layer2.wf(),
        layer1.neurons.len() == layer2.neurons.len(),
        forall|j: int|
            0 <= j < layer1.neurons.len() ==> (#[trigger] layer1.neurons[j]).weights.len()
                == layer2.neurons[j].weights.len(),
    ensures
        r.wf(),
        r.neurons.len() == layer1.neurons.len(),
        forall|j: int|
            0 <= j < r.neurons.len() ==> (#[trigger] r.neurons[j]).weights.len()
                == layer1.neurons[j].weights.len(),
{
    let mut new_layer = Layer::new_empty();
    let n = layer1.neurons.len();
    for neuron_id in 0..n
        invariant
            n == layer1.neurons.len(),
            n == layer2.neurons.len(),
            n <= MAX_NODES,
            layer1.wf(),
            layer2.wf(),
            forall|j: int|
                0 <= j < n ==> (#[trigger] layer1.neurons[j]).weights.len()
                    == layer2.neurons[j].weights.len(),
            new_layer.neurons.len() == neuron_id,
            forall|j: int| 0 <= j < neuron_id ==> (#[trigger] new_layer.neurons[j]).wf(),
            forall|j: int|
                0 <= j < neuron_id ==> (#[trigger] new_layer.neurons[j]).weights.len()
                    == layer1.neurons[j].weights.len(),
    {
        let new_neuron = crossover_neurons(
            &layer1.neurons[neuron_id],
            &layer2.neurons[neuron_id],
            mutation_rate,
        );
        new_layer.neurons.push(new_neuron);
    }
    new_layer
}

/// Builds two children from two parent genomes of identical shape: for each
/// neuron position an independent fair coin picks the parent, and mutation is
/// applied to every copied neuron. Both children carry exactly the parents'
/// layer and neuron structure, whatever the coins decide; the first child's
/// coins favor neither parent, the second child's draws are independent of
/// the first's.
pub fn crossover_networks(network1: &Network, network2: &Network, mutation_rate: u32) -> (r: (
    Network,
    Network,
))
    requires
        network1.wf(),
        network2.wf(),
        same_shape(network1.layers@, network2.layers@),
    ensures
        r.0.wf(),
        r.1.wf(),
        same_shape(r.0.layers@, network1.layers@),
        same_shape(r.1.layers@, network1.layers@),
{
    let mut new_network1 = Network::new_empty();
    let mut new_network2 = Network::new_empty();
    let n = network1.layers.len();
    for layer_id in 0..n
        invariant
            n == network1.layers.len(),
            n == network2.layers.len(),
            network1.wf(),
            network2.wf(),
            same_shape(network1.layers@, network2.layers@),
            new_network1.layers.len() == layer_id,
            new_network2.layers.len() == layer_id,
            forall|i: int| 0 <= i < layer_id ==> (#[trigger] new_network1.layers[i]).wf(),
            forall|i: int| 0 <= i < layer_id ==> (#[trigger] new_network2.layers[i]).wf(),
            forall|i: int|
                0 <= i < layer_id ==> (#[trigger] new_network1.layers[i]).neurons.len()
                    == network1.layers[i].neurons.len(),
            forall|i: int|
                0 <= i < layer_id ==> (#[trigger] new_network2.layers[i]).neurons.len()
                    == network1.layers[i].neurons.len(),
            forall|i: int, j: int|
                0 <= i < layer_id && 0 <= j < new_network1.layers[i].neurons.len() ==> (
                #[trigger] new_network1.layers[i].neurons[j]).weights.len()
                    == network1.layers[i].neurons[j].weights.len(),
            forall|i: int, j: int|
                0 <= i < layer_id && 0 <= j < new_network2.layers[i].neurons.len() ==> (
                #[trigger] new_network2.layers[i].neurons[j]).weights.len()
                    == network1.layers[i].neurons[j].weights.len(),
    {
        let new_layer1 = crossover_layers(
            &network1.layers[layer_id],
            &network2.layers[layer_id],
            mutation_rate,
        );
        let new_layer2 = crossover_layers(
            &network2.layers[layer_id],
            &network1.layers[layer_id],
            mutation_rate,
        );
        new_network1.layers.push(new_layer1);
        new_network2.layers.push(new_layer2);
    }
    (new_network1, new_network2)
}

/// Position, within a sample of member indices, of the first sampled member
/// with maximal fitness: on ties the earliest sample position wins.
pub open spec fn sample_argmax(worlds: Seq<World>, sample: Seq<usize>, n: int) -> int
    decreases n,
{
    if n <= 1 {
        0
    } else {
        let p = sample_argmax(worlds, sample, n - 1);
        if worlds[sample[n - 1] as int].fitness_score > worlds[sample[p] as int].fitness_score {
            n - 1
        } else {
            p
        }
    }
}

/// The winner of one sample: the first-encountered sampled member whose
/// fitness no other sampled member exceeds.
pub fn best_of(worlds: &Vec<World>, sample: &Vec<usize>) -> (r: usize)
    requires
        sample.len() >= 1,
        forall|i: int| 0 <= i < sample.len() ==> #[trigger] sample[i] < worlds.len(),
    ensures
        r < worlds.len(),
        r == sample[sample_argmax(worlds@, sample@, sample.len() as int)],
        forall|j: int|
            0 <= j < sample.len() ==> worlds[#[trigger] sample[j] as int].fitness_score
                <= worlds[r as int].fitness_score,
{
    let mut best: usize = 0;
    let n = sample.len();
    for i in 1..n
        invariant
            n == sample.len(),
            forall|k: int| 0 <= k < n ==> #[trigger] sample[k] < worlds.len(),
            best < i,
            best == sample_argmax(worlds@, sample@, i as int),
            forall|j: int|
                0 <= j < i ==> worlds[#[trigger] sample[j] as int].fitness_score
                    <= worlds[sample[best as int] as int].fitness_score,
    {
        if worlds[sample[i]].fitness_score > worlds[sample[best]].fitness_score {
            best = i;
        }
    }
    sample[best]
}

/// Tournament selection of two distinct parents, by population index: each
/// parent is the best of an independent uniform sample without replacement;
/// a second winner equal to the first is re-drawn a bounded number of times,
/// after which the next index is taken, so that two distinct indices always
/// come back.
pub fn tournament_selection(worlds: &Vec<World>, tournament_size: usize) -> (r: (usize, usize))
    requires
        worlds.len() >= 2,
        1 <= tournament_size <= worlds.len(),
    ensures
        r.0 < worlds.len(),
        r.1 < worlds.len(),
        r.0 != r.1,
{
    let sample = crate::rng::sample_indices(worlds.len(), tournament_size);
    let parent1 = best_of(worlds, &sample);
    let mut parent2 = parent1;
    let mut attempts: usize = 0;
    while parent2 == parent1 && attempts < 32
        invariant
            parent1 < worlds.len(),
            parent2 < worlds.len(),
            attempts <= 32,
            worlds.len() >= 2,
            1 <= tournament_size <= worlds.len(),
        decreases 32 - attempts,
    {
        let sample2 = crate::rng::sample_indices(worlds.len(), tournament_size);
        parent2 = best_of(worlds, &sample2);
        attempts = attempts + 1;
    }
    if parent2 == parent1 {
        parent2 = if parent1 + 1 < worlds.len() {
            parent1 + 1
        } else {
            0
        };
    }
    (parent1, parent2)
}

/// `sel` picks `n` distinct member indices whose fitness no unpicked member
/// exceeds: a top-n selection (order among equals unspecified).
pub open spec fn top_selection(worlds: Seq<World>, sel: Seq<int>, n: int) -> bool {
    &&& sel.len() == n
    &&& forall|a: int| 0 <= a < n ==> 0 <= #[trigger] sel[a] < worlds.len()
    &&& forall|a: int, b: int| 0 <= a < b < n ==> sel[a] != sel[b]
    &&& forall|a: int, k: int|
        #![trigger sel[a], worlds[k]]
        0 <= a < n && 0 <= k < worlds.len() && !sel.contains(k) ==> worlds[k].fitness_score
            <= worlds[sel[a]].fitness_score
}

/// `r` carries exactly the genomes of the members a top-n selection `sel`
/// picks, in the selection's order.
pub open spec fn top_pick(worlds: Seq<World>, sel: Seq<int>, r: Seq<Network>) -> bool {
    &&& top_selection(worlds, sel, r.len() as int)
    &&& forall|j: int|
        0 <= j < r.len() ==> net_model(#[trigger] r[j]) == net_model(worlds[sel[j]].network)
}

/// Elitism: the genomes of `n` members whose fitness no other member
/// exceeds, each carried forward unmodified.
pub fn get_top_n(worlds: &Vec<World>, n: usize) -> (r: Vec<Network>)
    requires
        n <= worlds.len(),
    ensures
        r.len() == n,
        exists|sel: Seq<int>| #[trigger] top_pick(worlds@, sel, r@),
{
    let len = worlds.len();
    let mut idx: Vec<usize> = Vec::new();
    for t in 0..len
        invariant
            idx.len() == t,
            forall|a: int| 0 <= a < t ==> #[trigger] idx[a] == a,
    {
        idx.push(t);
    }
    proof {
        assert forall|k: int| 0 <= k < len implies #[trigger] idx@.contains(k as usize) by {
            assert(idx[k] == k as usize);
        }
    }
    for i in 0..n
        invariant
            n <= len,
            len == worlds.len(),
            idx.len() == len,
            forall|a: int| 0 <= a < len ==> #[trigger] idx[a] < len,
            forall|a: int, b: int| 0 <= a < b < len ==> idx[a] != idx[b],
            forall|k: int| 0 <= k < len ==> #[trigger] idx@.contains(k as usize),
            forall|a: int, b: int|
                #![trigger idx[a], idx[b]]
                0 <= a < i && a < b < len ==> worlds[idx[b] as int].fitness_score
                    <= worlds[idx[a] as int].fitness_score,
    {
        let mut best = i;
        for j in (i + 1)..len
            invariant
                n <= len,
                len == worlds.len(),
                idx.len() == len,
                i < len,
                i <= best < j,
                j <= len,
                forall|a: int| 0 <= a < len ==> #[trigger] idx[a] < len,
                forall|t: int|
                    i <= t < j ==> worlds[#[trigger] idx[t] as int].fitness_score
                        <= worlds[idx[best as int] as int].fitness_score,
        {
            if worlds[idx[j]].fitness_score > worlds[idx[best]].fitness_score {
                best = j;
            }
        }
        let ghost old_idx = idx@;
        let tmp = idx[i];
        let bv = idx[best];
        idx[i] = bv;
        idx[best] = tmp;
        proof {
            assert(idx@ =~= old_idx.update(i as int, old_idx[best as int]).update(
                best as int,
                old_idx[i as int],
            ));
            assert forall|k: int| 0 <= k < len implies #[trigger] idx@.contains(k as usize) by {
                assert(old_idx.contains(k as usize));
                let b = choose|b: int| 0 <= b < old_idx.len() && old_idx[b] == k as usize;
                if b == i as int {
                    assert(idx[best as int] == k as usize);
                } else if b == best as int {
                    assert(idx[i as int] == k as usize);
                } else {
                    assert(idx[b] == k as usize);
                }
            }
        }
    }
    let mut r: Vec<Network> = Vec::new();
    for j in 0..n
        invariant
            n <= len,
            len == worlds.len(),
            idx.len() == len,
            forall|a: int| 0 <= a < len ==> #[trigger] idx[a] < len,
            forall|a: int, b: int| 0 <= a < b < len ==> idx[a] != idx[b],
            forall|k: int| 0 <= k < len ==> #[trigger] idx@.contains(k as usize),
            forall|a: int, b: int|
                #![trigger idx[a], idx[b]]
                0 <= a < n && a < b < len ==> worlds[idx[b] as int].fitness_score
                    <= worlds[idx[a] as int].fitness_score,
            r.len() == j,
            forall|t: int|
                0 <= t < j ==> net_model(#[trigger] r[t]) == net_model(
                    worlds[idx[t] as int].network,
                ),
    {
        r.push(worlds[idx[j]].network.clone());
    }
    proof {
        let sel = Seq::new(n as nat, |j: int| idx@[j] as int);
        assert forall|a: int, k: int|
            #![trigger sel[a], worlds@[k]]
            0 <= a < n && 0 <= k < worlds@.len() && !sel.contains(k) implies worlds@[k].fitness_score
            <= worlds@[sel[a]].fitness_score by {
            assert(idx@.contains(k as usize));
            let b = choose|b: int| 0 <= b < idx@.len() && idx@[b] == k as usize;
            if b < n {
                assert(sel[b] == k);
                assert(sel.contains(k));
            } else {
                assert(worlds@[idx@[b] as int].fitness_score
                    <= worlds@[idx@[a] as int].fitness_score);
            }
        }
        assert(top_selection(worlds@, sel, n as int));
        assert forall|j: int| 0 <= j < n implies net_model(#[trigger] r@[j]) == net_model(
            worlds@[sel[j]].network,
        ) by {
            assert(sel[j] == idx@[j] as int);
        }
        assert(top_pick(worlds@, sel, r@));
    }
    r
}

/// One pair of children per tournament: fills `offspring` slots (an odd
/// remainder is dropped) with crossover children of tournament-selected
/// distinct parents.
pub fn recombine_worlds(
    worlds: &Vec<World>,
    offspring: usize,
    tournament_size: usize,
    mutation_rate: u32,
) -> (r: Vec<Network>)
    requires
        worlds.len() >= 2,
        1 <= tournament_size <= worlds.len(),
        forall|i: int| 0 <= i < worlds.len() ==> (#[trigger] worlds[i]).network.wf(),
        forall|i: int|
            0 <= i < worlds.len() ==> same_shape(
                (#[trigger] worlds[i]).network.layers@,
                worlds[0].network.layers@,
            ),
    ensures
        r.len() == (offspring / 2) * 2,
        forall|i: int| 0 <= i < r.len() ==> (#[trigger] r[i]).wf(),
        forall|i: int|
            0 <= i < r.len() ==> same_shape(
                (#[trigger] r[i]).layers@,
                worlds[0].network.layers@,
            ),
{
    let mut recombinations: Vec<Network> = Vec::new();
    let pairs = offspring / 2;
    for rec_id in 0..pairs
        invariant
            pairs == offspring / 2,
            worlds.len() >= 2,
            1 <= tournament_size <= worlds.len(),
            forall|i: int| 0 <= i < worlds.len() ==> (#[trigger] worlds[i]).network.wf(),
            forall|i: int|
                0 <= i < worlds.len() ==> same_shape(
                    (#[trigger] worlds[i]).network.layers@,
                    worlds[0].network.layers@,
                ),
            recombinations.len() == 2 * rec_id,
            forall|i: int|
                0 <= i < recombinations.len() ==> (#[trigger] recombinations[i]).wf(),
            forall|i: int|
                0 <= i < recombinations.len() ==> same_shape(
                    (#[trigger] recombinations[i]).layers@,
                    worlds[0].network.layers@,
                ),
    {
        let (parent1, parent2) = tournament_selection(worlds, tournament_size);
        let (child1, child2) = crossover_networks(
            &worlds[parent1].network,
            &worlds[parent2].network,
            mutation_rate,
        );
        recombinations.push(child1);
        recombinations.push(child2);
    }
    recombinations
}

/// Produces the genomes of the next generation: tournament crossover
/// children for every slot the elites do not fill, then the elites' genomes
/// unmodified. The result holds `elitists_num + offspring` genomes, where
/// `offspring` is the population size minus the elites, rounded down to even.
/// The last `n_elites` entries of `r` are exactly the genomes a top-n
/// selection `sel` picks, in the selection's order: elitism carries them
/// forward unmodified.
pub open spec fn elites_at_tail(
    worlds: Seq<World>,
    sel: Seq<int>,
    r: Seq<Network>,
    n_elites: int,
) -> bool {
    &&& top_selection(worlds, sel, n_elites)
    &&& forall|j: int|
        0 <= j < n_elites ==> net_model(#[trigger] r[r.len() - n_elites + j]) == net_model(
            worlds[sel[j]].network,
        )
}

pub fn next_generation_networks(
    worlds: &Vec<World>,
    elitists_num: usize,
    tournament_size: usize,
    mutation_rate: u32,
) -> (r: Vec<Network>)
    requires
        worlds.len() >= 2,
        elitists_num <= worlds.len(),
        1 <= tournament_size <= worlds.len(),
        forall|i: int| 0 <= i < worlds.len() ==> (#[trigger] worlds[i]).network.wf(),
        forall|i: int|
            0 <= i < worlds.len() ==> same_shape(
                (#[trigger] worlds[i]).network.layers@,
                worlds[0].network.layers@,
            ),
        shape_from(worlds[0].network.layers@, INPUT_LEN as nat),
    ensures
        r.len() == ((worlds.len() - elitists_num) / 2) * 2 + elitists_num,
        forall|i: int| 0 <= i < r.len() ==> (#[trigger] r[i]).wf(),
        forall|i: int|
            0 <= i < r.len() ==> same_shape(
                (#[trigger] r[i]).layers@,
                worlds[0].network.layers@,
            ),
        forall|i: int|
            0 <= i < r.len() ==> shape_from((#[trigger] r[i]).layers@, INPUT_LEN as nat),
        exists|sel: Seq<int>| #[trigger] elites_at_tail(worlds@, sel, r@, elitists_num as int),
{
    let offspring = worlds.len() - elitists_num;
    let mut networks = recombine_worlds(worlds, offspring, tournament_size, mutation_rate);
    let mut elites = get_top_n(worlds, elitists_num);
    let ghost elites_snap = elites@;
    let ghost sel = choose|sel: Seq<int>| #[trigger] top_pick(worlds@, sel, elites_snap);
    proof {
        assert(top_pick(worlds@, sel, elites@));
        assert forall|j: int| 0 <= j < elites.len() implies (#[trigger] elites[j]).wf()
            && same_shape(elites[j].layers@, worlds[0].network.layers@) by {
            assert(0 <= sel[j] < worlds.len());
            assert(net_model(elites@[j]) == net_model(worlds[sel[j]].network));
            lemma_model_same_wf(worlds[sel[j]].network, elites@[j]);
        }
    }
    let ghost pre_len = networks@.len();
    networks.append(&mut elites);
    proof {
        assert forall|i: int|
            0 <= i < networks.len() implies shape_from(
            (#[trigger] networks[i]).layers@,
            INPUT_LEN as nat,
        ) by {
            lemma_same_shape_from(
                worlds[0].network.layers@,
                networks[i].layers@,
                INPUT_LEN as nat,
            );
        }
        assert forall|j: int|
            0 <= j < elitists_num implies net_model(
            #[trigger] networks@[networks@.len() - elitists_num + j],
        ) == net_model(worlds@[sel[j]].network) by {
            assert(networks@[pre_len + j] == elites_snap[j]);
            assert(net_model(elites_snap[j]) == net_model(worlds@[sel[j]].network));
        }
        assert(elites_at_tail(worlds@, sel, networks@, elitists_num as int));
    }
    networks
}

} // verus!
