use rand::{Rng, SeedableRng};
use rand_chacha::ChaCha8Rng;
use shorelark::{Layer, LayerTopology, Network, Neuron};

#[test]
fn test_neuron_random() {
    let mut rng = ChaCha8Rng::from_seed(Default::default());
    let samples: Vec<f32> = (0..5).map(|_| rng.gen_range(-1.0..=1.0)).collect();
    let mut next = 0;
    let neuron = Neuron::from_weights(4, &samples, &mut next);

    assert_eq!(next, 5);
    assert_eq!(neuron.bias(), -0.6255188);
    assert_eq!(neuron.weights(), [0.67383957, 0.8181262, 0.26284897, 0.5238807].as_ref());
}

#[test]
fn weights_test() {
    let network = Network::new(vec![
        Layer::new(vec![Neuron::new(0.1, vec![0.2, 0.3, 0.4])]),
        Layer::new(vec![Neuron::new(0.5, vec![0.6, 0.7, 0.8])]),
    ]);

    let actual: Vec<_> = network.weights().collect();
    let expected = vec![0.1, 0.2, 0.3, 0.4, 0.5, 0.6, 0.7, 0.8];

    assert_eq!(actual.as_slice(), expected.as_slice());
}

#[test]
fn from_weights_test() {
    let layers = &[LayerTopology { neurons: 3 }, LayerTopology { neurons: 2 }];

    let weights = vec![0.1, 0.2, 0.3, 0.4, 0.5, 0.6, 0.7, 0.8];

    let network = Network::from_weights(layers, weights.clone());
    let actual: Vec<_> = network.weights().collect();

    assert_eq!(actual.as_slice(), weights.as_slice());
}

#[test]
fn from_weights_layout() {
    let layers = &[
        LayerTopology { neurons: 2 },
        LayerTopology { neurons: 2 },
        LayerTopology { neurons: 1 },
    ];
    let weights: Vec<i32> = (1..=9).collect();

    let network = Network::from_weights(layers, weights);
    let shape: Vec<Vec<(i32, Vec<i32>)>> = network
        .layers()
        .iter()
        .map(|l| l.neurons().iter().map(|n| (n.bias(), n.weights().to_vec())).collect())
        .collect();

    assert_eq!(
        shape,
        vec![
            vec![(1, vec![2, 3]), (4, vec![5, 6])],
            vec![(7, vec![8, 9])],
        ]
    );
}

#[test]
fn network_round_trip() {
    let layers = &[
        LayerTopology { neurons: 3 },
        LayerTopology { neurons: 4 },
        LayerTopology { neurons: 2 },
    ];
    let count = Network::<u16>::weight_count(layers).unwrap();
    assert_eq!(count, 4 * (3 + 1) + 2 * (4 + 1));

    let weights: Vec<u16> = (0..count as u16).map(|w| w * 7 + 1).collect();
    let network = Network::from_weights(layers, weights.clone());
    let rebuilt = Network::from_weights(layers, network.params());

    assert_eq!(rebuilt.params(), weights);
    assert_eq!(rebuilt.weights().collect::<Vec<_>>(), network.weights().collect::<Vec<_>>());
}

#[test]
fn random_takes_samples_in_order() {
    let layers = &[LayerTopology { neurons: 1 }, LayerTopology { neurons: 2 }];
    let network = Network::random(layers, vec![10, 20, 30, 40]);

    assert_eq!(network.params(), vec![10, 20, 30, 40]);
    assert_eq!(network.layers().len(), 1);
    assert_eq!(network.layers()[0].neurons()[1].bias(), 30);
    assert_eq!(network.layers()[0].neurons()[1].weights(), [40].as_ref());
}

#[test]
fn weight_count_values() {
    let t = |ns: &[usize]| ns.iter().map(|&n| LayerTopology { neurons: n }).collect::<Vec<_>>();

    assert_eq!(Network::<f32>::weight_count(&t(&[3, 2])), Some(8));
    assert_eq!(Network::<f32>::weight_count(&t(&[9, 18, 2])), Some(18 * 10 + 2 * 19));
    assert_eq!(Network::<f32>::weight_count(&t(&[5])), Some(0));
    assert_eq!(Network::<f32>::weight_count(&t(&[0, 0])), Some(0));
    assert_eq!(Network::<f32>::weight_count(&t(&[usize::MAX, 0])), Some(0));
    assert_eq!(Network::<f32>::weight_count(&t(&[usize::MAX, 1])), None);
    assert_eq!(Network::<f32>::weight_count(&t(&[1, usize::MAX / 2 + 1])), None);
}
