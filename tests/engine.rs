use std::cell::RefCell;

use juggernaut::activation::{
    Activation, HyperbolicTangent, Identity, LeakyRectifiedLinearUnit, RectifiedLinearUnit, Sigmoid,
    SoftMax, SoftPlus,
};
use juggernaut::cost::{CostFunction, CrossEntropy, SquaredError};
use juggernaut::error::NetError;
use juggernaut::layer::NeuralLayer;
use juggernaut::matrix::Matrix;
use juggernaut::network::{NeuralNetwork, TrainingObserver};
use juggernaut::sample::Sample;
use juggernaut::scalar::Scalar;
use rand::rngs::StdRng;
use rand::SeedableRng;

/// Double-precision arithmetic for the engine.
#[derive(Clone, Copy, Debug, PartialEq)]
struct F(f64);

impl Scalar for F {
    // The operations themselves; each method below returns what its named operation
    // gives.
    fn spec_zero() -> Self {
        F(0.0)
    }
    fn spec_one() -> Self {
        F(1.0)
    }
    fn spec_ratio(numer: i64, denom: i64) -> Self {
        F(numer as f64 / denom as f64)
    }
    fn spec_count(count: usize) -> Self {
        F(count as f64)
    }
    fn spec_plus(self, other: Self) -> Self {
        F(self.0 + other.0)
    }
    fn spec_minus(self, other: Self) -> Self {
        F(self.0 - other.0)
    }
    fn spec_times(self, other: Self) -> Self {
        F(self.0 * other.0)
    }
    fn spec_divide(self, other: Self) -> Self {
        F(self.0 / other.0)
    }
    fn spec_exp(self) -> Self {
        F(self.0.exp())
    }
    fn spec_ln(self) -> Self {
        F(self.0.ln())
    }
    fn spec_tanh(self) -> Self {
        F(self.0.tanh())
    }
    fn spec_is_positive(self) -> bool {
        self.0 > 0.0
    }

    fn zero() -> Self {
        Self::spec_zero()
    }
    fn one() -> Self {
        Self::spec_one()
    }
    fn from_ratio(numer: i64, denom: i64) -> Self {
        Self::spec_ratio(numer, denom)
    }
    fn from_count(count: usize) -> Self {
        Self::spec_count(count)
    }
    fn plus(self, other: Self) -> Self {
        self.spec_plus(other)
    }
    fn minus(self, other: Self) -> Self {
        self.spec_minus(other)
    }
    fn times(self, other: Self) -> Self {
        self.spec_times(other)
    }
    fn divide(self, other: Self) -> Self {
        self.spec_divide(other)
    }
    fn exp(self) -> Self {
        self.spec_exp()
    }
    fn ln(self) -> Self {
        self.spec_ln()
    }
    fn tanh(self) -> Self {
        self.spec_tanh()
    }
    fn is_positive(self) -> bool {
        self.spec_is_positive()
    }
}

fn close(a: F, b: f64) -> bool {
    (a.0 - b).abs() < 1e-6
}

fn fs(values: &[f64]) -> Vec<F> {
    values.iter().map(|&v| F(v)).collect()
}

fn sample(inputs: &[f64], outputs: &[f64]) -> Sample<F> {
    Sample::new(fs(inputs), fs(outputs))
}

fn four_samples() -> Vec<Sample<F>> {
    vec![
        sample(&[0.0, 0.0, 1.0], &[0.0]),
        sample(&[0.0, 1.0, 1.0], &[0.0]),
        sample(&[1.0, 0.0, 1.0], &[1.0]),
        sample(&[1.0, 1.0, 1.0], &[1.0]),
    ]
}

fn matrix(cols: usize, rows: &[&[f64]]) -> Matrix<F> {
    Matrix::from_rows(cols, rows.iter().map(|r| fs(r)).collect()).unwrap()
}

fn cells(m: &Matrix<F>) -> Vec<Vec<f64>> {
    m.to_rows().iter().map(|r| r.iter().map(|v| v.0).collect()).collect()
}

// Activations

#[test]
fn leakyrectifiedlinearunit_test() {
    let activation = LeakyRectifiedLinearUnit::new(F(0.01));
    assert!(close(activation.calc(vec![F(3.4)])[0], 3.4));
    assert!(close(activation.calc(vec![F(-3.4)])[0], -0.034));
}

#[test]
fn leakyrectifiedlinearunit_derivative_test() {
    let activation = LeakyRectifiedLinearUnit::new(F(0.01));
    assert!(close(activation.derivative(vec![F(-3.4)])[0], 0.01));
    // The gradient above zero is one.
    assert!(close(activation.derivative(vec![F(3.4)])[0], 1.0));
}

#[test]
fn rectifiedlinearunit_test() {
    let activation = RectifiedLinearUnit::new();
    assert!(close(activation.calc(vec![F(3.4)])[0], 3.4));
    assert!(close(activation.calc(vec![F(-3.4)])[0], 0.0));
}

#[test]
fn rectifiedlinearunit_derivative_test() {
    let activation = RectifiedLinearUnit::new();
    assert!(close(activation.derivative(vec![F(-3.4)])[0], 0.0));
    assert!(close(activation.derivative(vec![F(3.4)])[0], 1.0));
}

fn every_activation() -> Vec<Activation<F>> {
    vec![
        Identity::new(),
        Sigmoid::new(),
        HyperbolicTangent::new(),
        SoftMax::new(),
        SoftPlus::new(),
        RectifiedLinearUnit::new(),
        LeakyRectifiedLinearUnit::new(F(0.01)),
    ]
}

#[test]
fn empty_rows_stay_empty() {
    for activation in every_activation() {
        assert!(activation.calc(Vec::new()).is_empty());
        assert!(activation.derivative(Vec::new()).is_empty());
    }
}

#[test]
fn sigmoid_of_zero_is_one_half() {
    assert_eq!(Sigmoid::new().calc(vec![F(0.0)])[0], F(0.5));
    // a * (1 - a) at the activated value
    assert!(close(Sigmoid::new().derivative(vec![F(0.5)])[0], 0.25));
}

#[test]
fn value_by_value_formulas() {
    let x = vec![F(-1.0), F(0.0), F(2.0)];
    let identity = Identity::new().calc(x.clone());
    assert_eq!(identity, x);
    let ones = Identity::new().derivative(x.clone());
    assert_eq!(ones, fs(&[1.0, 1.0, 1.0]));
    let tanh = HyperbolicTangent::new().calc(x.clone());
    assert!(close(tanh[2], 2f64.tanh()));
    assert!(close(HyperbolicTangent::new().derivative(vec![F(0.5)])[0], 0.75));
    let soft_plus = SoftPlus::new().calc(x.clone());
    assert!(close(soft_plus[0], (1.0 + (-1f64).exp()).ln()));
    assert!(close(SoftPlus::new().derivative(vec![F(0.0)])[0], 0.5));
}

#[test]
fn soft_max_normalises_a_row() {
    let out = SoftMax::new().calc(fs(&[1.0, 2.0, 3.0]));
    let total: f64 = out.iter().map(|v| v.0).sum();
    assert!((total - 1.0).abs() < 1e-9);
    let e = [1f64.exp(), 2f64.exp(), 3f64.exp()];
    let sum = e[0] + e[1] + e[2];
    assert!(close(out[2], e[2] / sum));
    assert!(close(SoftMax::new().derivative(vec![F(0.25)])[0], 0.1875));
}

#[test]
fn activation_names_round_trip() {
    for activation in every_activation() {
        let back = Activation::from_name(&activation.name(), activation.parameter()).unwrap();
        assert_eq!(back, activation);
    }
    assert_eq!(Sigmoid::new::<F>().name(), "Sigmoid");
    assert_eq!(LeakyRectifiedLinearUnit::new(F(0.2)).parameter(), Some(F(0.2)));
}

#[test]
fn unknown_activation_name_is_a_parse_error() {
    let r = Activation::<F>::from_name(&"Softsign".to_string(), None);
    assert_eq!(r, Err(NetError::ParseError));
    let r = Activation::<F>::from_name(&"LeakyRectifiedLinearUnit".to_string(), None);
    assert_eq!(r, Err(NetError::ParseError));
}

// Costs

#[test]
fn squared_error_is_half_the_sum_of_squares() {
    let prediction = matrix(2, &[&[0.5, 1.0]]);
    let target = matrix(2, &[&[1.0, 3.0]]);
    let loss = SquaredError::new().calc(&prediction, &target).unwrap();
    assert!(close(loss, (0.25 + 4.0) / 2.0));
}

#[test]
fn cross_entropy_is_the_negative_log_likelihood() {
    let prediction = matrix(2, &[&[0.25, 0.75]]);
    let target = matrix(2, &[&[0.0, 1.0]]);
    let loss = CrossEntropy::new().calc(&prediction, &target).unwrap();
    assert!(close(loss, -(0.75f64.ln())));
}

#[test]
fn cost_of_mismatched_rows_is_an_error() {
    let prediction = matrix(2, &[&[0.25, 0.75]]);
    let target = matrix(3, &[&[0.0, 1.0, 0.0]]);
    assert_eq!(SquaredError::new().calc(&prediction, &target), Err(NetError::DimensionMismatch));
}

#[test]
fn cost_names_round_trip() {
    for cost in [CostFunction::SquaredError, CostFunction::CrossEntropy] {
        assert_eq!(CostFunction::from_name(&cost.name()), Ok(cost));
    }
    assert_eq!(CostFunction::from_name(&"Hinge".to_string()), Err(NetError::ParseError));
}

// Matrices

#[test]
fn transpose_swaps_rows_and_columns() {
    let m = matrix(3, &[&[1.0, 2.0, 3.0], &[4.0, 5.0, 6.0]]);
    let t = m.transpose();
    assert_eq!((t.rows(), t.cols()), (3, 2));
    assert_eq!(cells(&t), vec![vec![1.0, 4.0], vec![2.0, 5.0], vec![3.0, 6.0]]);
}

#[test]
fn dot_is_the_matrix_product() {
    let a = matrix(2, &[&[1.0, 2.0], &[3.0, 4.0], &[5.0, 6.0]]);
    let b = matrix(3, &[&[1.0, 0.0, 2.0], &[0.0, 1.0, 3.0]]);
    let ab = a.dot(&b).unwrap();
    assert_eq!((ab.rows(), ab.cols()), (3, 3));
    assert_eq!(
        cells(&ab),
        vec![vec![1.0, 2.0, 8.0], vec![3.0, 4.0, 18.0], vec![5.0, 6.0, 28.0]]
    );
}

#[test]
fn transpose_of_product_is_product_of_transposes() {
    let a = matrix(3, &[&[1.5, -2.0, 0.25], &[3.0, 4.0, -1.0]]);
    let b = matrix(2, &[&[1.0, 0.5], &[-2.0, 3.0], &[0.75, 1.0]]);
    let left = a.dot(&b).unwrap().transpose();
    let right = b.transpose().dot(&a.transpose()).unwrap();
    assert_eq!((left.rows(), left.cols()), (right.rows(), right.cols()));
    for (l, r) in cells(&left).iter().flatten().zip(cells(&right).iter().flatten()) {
        assert!((l - r).abs() < 1e-12);
    }
}

#[test]
fn dot_with_mismatched_inner_sizes_fails() {
    let a = matrix(2, &[&[1.0, 2.0]]);
    let b = matrix(2, &[&[1.0, 2.0]]);
    assert!(matches!(a.dot(&b), Err(NetError::DimensionMismatch)));
}

#[test]
fn get_checks_bounds() {
    let m = matrix(2, &[&[1.0, 2.0], &[3.0, 4.0]]);
    assert_eq!(m.get(1, 0), Ok(F(3.0)));
    assert_eq!(m.get(2, 0), Err(NetError::OutOfBounds));
    assert_eq!(m.get(0, 2), Err(NetError::OutOfBounds));
    assert_eq!(m.row(1), fs(&[3.0, 4.0]));
}

#[test]
fn from_rows_rejects_ragged_rows() {
    let r = Matrix::from_rows(2, vec![fs(&[1.0, 2.0]), fs(&[3.0])]);
    assert!(matches!(r, Err(NetError::DimensionMismatch)));
}

#[test]
fn zero_generate_and_map() {
    let z = Matrix::<F>::zero(2, 3);
    assert_eq!(cells(&z), vec![vec![0.0; 3]; 2]);
    let g = Matrix::generate(2, 2, |i, j| F((10 * i + j) as f64));
    assert_eq!(cells(&g), vec![vec![0.0, 1.0], vec![10.0, 11.0]]);
    let m = g.map(|v, i, _| F(v.0 + i as f64));
    assert_eq!(cells(&m), vec![vec![0.0, 1.0], vec![11.0, 12.0]]);
    let doubled = g.map_row(|row| row.iter().map(|v| F(2.0 * v.0)).collect());
    assert_eq!(cells(&doubled), vec![vec![0.0, 2.0], vec![20.0, 22.0]]);
}

#[test]
fn cellwise_operations() {
    let a = matrix(2, &[&[1.0, 2.0]]);
    let b = matrix(2, &[&[3.0, 5.0]]);
    assert_eq!(cells(&a.sum(&b).unwrap()), vec![vec![4.0, 7.0]]);
    assert_eq!(cells(&b.difference(&a).unwrap()), vec![vec![2.0, 3.0]]);
    assert_eq!(cells(&a.hadamard(&b).unwrap()), vec![vec![3.0, 10.0]]);
    assert_eq!(cells(&a.scale(F(0.5))), vec![vec![0.5, 1.0]]);
    let m = matrix(2, &[&[1.0, 1.0], &[2.0, 2.0]]);
    assert_eq!(cells(&m.add_to_each_row(&b).unwrap()), vec![vec![4.0, 6.0], vec![5.0, 7.0]]);
    assert!(matches!(m.sum(&a), Err(NetError::DimensionMismatch)));
    assert!(matches!(m.add_to_each_row(&m), Err(NetError::DimensionMismatch)));
}

// Layers

#[test]
fn new_layer_has_small_random_weights_and_zero_biases() {
    let layer = NeuralLayer::new(3, 4, Sigmoid::new());
    assert_eq!((layer.neurons(), layer.inputs()), (3, 4));
    let weights = cells(layer.weights());
    assert!(weights.iter().flatten().all(|w| (-1.0..=1.0).contains(w)));
    assert!(weights.iter().flatten().any(|w| *w != 0.0));
    assert_eq!(cells(layer.biases()), vec![vec![0.0; 3]]);
}

#[test]
fn layer_feed_computes_activation_of_weighted_sum() {
    let weights = matrix(2, &[&[1.0, 2.0], &[-1.0, 0.5]]);
    let biases = matrix(2, &[&[0.5, -3.0]]);
    let layer = NeuralLayer::from_parts(weights, biases, RectifiedLinearUnit::new()).unwrap();
    let out = layer.feed(&matrix(2, &[&[1.0, 1.0]])).unwrap();
    // pre-activation: [1 + 2 + 0.5, -1 + 0.5 - 3] = [3.5, -3.5]
    assert_eq!(cells(&out), vec![vec![3.5, 0.0]]);
}

#[test]
fn layer_setters_check_shapes() {
    let mut layer = NeuralLayer::new(2, 3, Identity::new());
    assert_eq!(layer.set_weights(Matrix::zero(3, 2)), Err(NetError::DimensionMismatch));
    assert_eq!(layer.set_weights(Matrix::zero(2, 3)), Ok(()));
    assert_eq!(cells(layer.weights()), vec![vec![0.0; 3]; 2]);
    assert_eq!(layer.set_biases(Matrix::zero(2, 1)), Err(NetError::DimensionMismatch));
    assert_eq!(layer.set_biases(matrix(2, &[&[1.0, 2.0]])), Ok(()));
    assert_eq!(cells(layer.biases()), vec![vec![1.0, 2.0]]);
    let r = NeuralLayer::from_parts(Matrix::<F>::zero(2, 3), Matrix::zero(1, 3), Identity::new());
    assert!(matches!(r, Err(NetError::DimensionMismatch)));
}

// Networks

#[test]
fn get_layers_test() {
    let mut test = NeuralNetwork::new();

    let layers = vec![NeuralLayer::<F>::new(1, 2, Sigmoid::new())];

    for layer in layers {
        test.add_layer(layer).unwrap();
    }

    let get_layers = test.get_layers();

    assert_eq!(get_layers.len(), 1);
}

#[test]
fn forward_test() {
    let dataset = vec![sample(&[1.0, 0.0], &[0.0])];

    let mut test = NeuralNetwork::new();

    let sig_activation = Sigmoid::new();
    // 1st layer = 1 neurons - 2 inputs
    test.add_layer(NeuralLayer::<F>::new(1, 2, sig_activation)).unwrap();

    let forward = test.forward(&dataset[0]).unwrap();
    assert_eq!(forward.len(), 1);
}

#[test]
fn forward_test_2layers() {
    let dataset = vec![sample(&[1.0, 0.0], &[0.0])];

    let mut test = NeuralNetwork::new();

    let sig_activation = Sigmoid::new();

    // 1st layer = 3 neurons - 2 inputs
    test.add_layer(NeuralLayer::<F>::new(3, 2, sig_activation)).unwrap();
    // 2nd layer = 1 neuron - 3 inputs
    test.add_layer(NeuralLayer::new(1, 3, sig_activation)).unwrap();

    let forward = test.forward(&dataset[0]).unwrap();

    assert_eq!(forward.len(), 2);
}

#[test]
fn train_test() {
    let dataset = vec![sample(&[1.0, 0.0], &[0.0])];

    let mut test = NeuralNetwork::new();

    let sig_activation = Sigmoid::new();

    // 1st layer = 1 neurons - 2 inputs
    test.add_layer(NeuralLayer::<F>::new(1, 2, sig_activation)).unwrap();

    let losses = test.train(dataset, 10, F(0.1)).unwrap();
    assert_eq!(losses.len(), 10);
}

#[test]
fn train_test_2layers() {
    let dataset = vec![
        sample(&[1.0, 0.0], &[0.0]),
        sample(&[1.0, 1.0], &[1.0]),
        sample(&[1.0, 1.0], &[1.0]),
    ];

    let mut test = NeuralNetwork::new();

    let sig_activation = Sigmoid::new();

    // 1st layer = 2 neurons - 2 inputs
    test.add_layer(NeuralLayer::<F>::new(2, 2, sig_activation)).unwrap();
    // 2nd layer = 1 neuron - 2 inputs
    test.add_layer(NeuralLayer::new(1, 2, sig_activation)).unwrap();

    let forward = test.forward(&dataset[1]).unwrap();

    test.train(dataset, 100, F(0.1)).unwrap();

    assert_eq!(forward.len(), 2);
}

#[test]
fn train_test_2layers_think() {
    let dataset = four_samples();

    let mut test = NeuralNetwork::new();

    let sig_activation = Sigmoid::new();

    // 1st layer = 2 neurons - 3 inputs
    test.add_layer(NeuralLayer::<F>::new(2, 3, sig_activation)).unwrap();
    // 2nd layer = 1 neuron - 2 inputs
    test.add_layer(NeuralLayer::new(1, 2, sig_activation)).unwrap();

    test.train(dataset, 5, F(0.1)).unwrap();

    let think = test.evaluate(&Sample::predict(fs(&[1.0, 0.0, 1.0]))).unwrap();

    assert_eq!(think.rows(), 1);
    assert_eq!(think.cols(), 1);
}

/// Checks what `train` reports after each epoch.
struct Checks {
    errors: RefCell<Vec<f64>>,
    epochs: RefCell<usize>,
}

impl Checks {
    fn new() -> Self {
        Checks { errors: RefCell::new(Vec::new()), epochs: RefCell::new(0) }
    }
}

impl TrainingObserver<F> for Checks {
    fn on_error(&self, mean_error: F) {
        assert!(mean_error.0 > 0.0);
        self.errors.borrow_mut().push(mean_error.0);
    }

    fn on_epoch(&self, this: &NeuralNetwork<F>) {
        assert_eq!(3, this.get_layers()[0].weights().cols());
        assert_eq!(2, this.get_layers()[0].weights().rows());

        assert_eq!(2, this.get_layers()[1].weights().cols());
        assert_eq!(1, this.get_layers()[1].weights().rows());
        *self.epochs.borrow_mut() += 1;
    }
}

#[test]
fn error_function_test() {
    let dataset = four_samples();

    let mut test = NeuralNetwork::new();
    let bl = Checks::new();

    let sig_activation = Sigmoid::new();

    // 1st layer = 2 neurons - 3 inputs
    test.add_layer(NeuralLayer::<F>::new(2, 3, sig_activation)).unwrap();
    // 2nd layer = 1 neuron - 2 inputs
    test.add_layer(NeuralLayer::new(1, 2, sig_activation)).unwrap();

    let mut rng = StdRng::seed_from_u64(7);
    let losses = test.train_observed(dataset, 5, F(0.1), &bl, &mut rng).unwrap();
    let seen: Vec<f64> = losses.iter().map(|l| l.0).collect();
    assert_eq!(*bl.errors.borrow(), seen);
}

#[test]
fn on_epoch_test() {
    let dataset = four_samples();

    let mut test = NeuralNetwork::new();
    let bl = Checks::new();

    let sig_activation = Sigmoid::new();

    // 1st layer = 2 neurons - 3 inputs
    test.add_layer(NeuralLayer::<F>::new(2, 3, sig_activation)).unwrap();
    // 2nd layer = 1 neuron - 2 inputs
    test.add_layer(NeuralLayer::new(1, 2, sig_activation)).unwrap();

    let mut rng = StdRng::seed_from_u64(11);
    test.train_observed(dataset, 5, F(0.1), &bl, &mut rng).unwrap();
    assert_eq!(*bl.epochs.borrow(), 5);
}

#[test]
fn network_with_two_activations() {
    let dataset = four_samples();

    let mut test = NeuralNetwork::new();

    // 1st layer = 2 neurons - 3 inputs
    test.add_layer(NeuralLayer::<F>::new(2, 3, Sigmoid::new())).unwrap();
    // 2nd layer = 1 neuron - 2 inputs
    test.add_layer(NeuralLayer::new(1, 2, HyperbolicTangent::new())).unwrap();

    test.train(dataset, 5, F(0.1)).unwrap();

    let think = test.evaluate(&Sample::predict(fs(&[1.0, 0.0, 1.0]))).unwrap();

    assert_eq!(think.rows(), 1);
    assert_eq!(think.cols(), 1);
}

#[test]
fn two_hidden_layers() {
    let dataset = four_samples();

    let mut test = NeuralNetwork::new();

    // 1st layer = 2 neurons - 3 inputs
    test.add_layer(NeuralLayer::<F>::new(2, 3, Sigmoid::new())).unwrap();
    // 2nd layer = 4 neurons - 2 inputs
    test.add_layer(NeuralLayer::new(4, 2, Sigmoid::new())).unwrap();
    // 3rd layer = 1 neuron - 4 inputs
    test.add_layer(NeuralLayer::new(1, 4, Sigmoid::new())).unwrap();

    test.train(dataset, 1, F(0.1)).unwrap();

    let think = test.evaluate(&Sample::predict(fs(&[1.0, 0.0, 1.0]))).unwrap();

    assert_eq!(think.rows(), 1);
    assert_eq!(think.cols(), 1);
}

#[test]
fn three_hidden_layers() {
    let dataset = four_samples();

    let mut test = NeuralNetwork::new();

    // 1st layer = 2 neurons - 3 inputs
    test.add_layer(NeuralLayer::<F>::new(2, 3, Sigmoid::new())).unwrap();
    test.add_layer(NeuralLayer::new(1, 2, Sigmoid::new())).unwrap();

    test.set_cost_function(CrossEntropy::new());

    test.train(dataset, 5, F(0.1)).unwrap();

    let think = test.evaluate(&Sample::predict(fs(&[1.0, 0.0, 1.0]))).unwrap();

    assert_eq!(think.rows(), 1);
    assert_eq!(think.cols(), 1);
}

#[test]
fn train_test_multiclass() {
    let dataset = vec![
        sample(&[1.0, 0.0, 2.0], &[0.0, 1.0]),
        sample(&[1.0, 1.0, 5.0], &[1.0, 0.0]),
    ];

    let mut test = NeuralNetwork::new();

    let sig_activation = Sigmoid::new();
    test.set_cost_function(CrossEntropy::new());

    // 1st layer = 3 neurons - 3 inputs
    test.add_layer(NeuralLayer::<F>::new(3, 3, sig_activation)).unwrap();
    // 2nd layer = 2 neurons - 3 inputs
    test.add_layer(NeuralLayer::new(2, 3, SoftMax::new())).unwrap();

    test.train(dataset, 5, F(0.01)).unwrap();
}

#[test]
fn shuffle_data() {
    let dataset = vec![
        sample(&[1.0, 0.0, 2.0], &[0.0, 1.0]),
        sample(&[1.0, 1.0, 5.0], &[1.0, 0.0]),
    ];

    let mut test = NeuralNetwork::new();

    test.set_shuffle_data(true);

    // 1st layer = 3 neurons - 3 inputs
    test.add_layer(NeuralLayer::<F>::new(3, 3, Sigmoid::new())).unwrap();
    // 2nd layer = 2 neurons - 3 inputs
    test.add_layer(NeuralLayer::new(2, 3, SoftMax::new())).unwrap();

    test.train(dataset, 5, F(0.01)).unwrap();
    assert!(test.get_shuffle_data());
}

#[test]
fn new_network_defaults() {
    let test = NeuralNetwork::<F>::new();
    assert!(test.get_layers().is_empty());
    assert_eq!(test.get_cost_function(), CostFunction::SquaredError);
    assert!(test.get_shuffle_data());
}

#[test]
fn mismatched_layer_is_refused_and_leaves_network_unchanged() {
    let mut test = NeuralNetwork::new();
    test.add_layer(NeuralLayer::<F>::new(3, 2, Sigmoid::new())).unwrap();
    let r = test.add_layer(NeuralLayer::new(1, 4, Sigmoid::new()));
    assert_eq!(r, Err(NetError::ConfigurationError { expected: 3, got: 4 }));
    assert_eq!(test.get_layers().len(), 1);
    assert_eq!(test.get_layers()[0].neurons(), 3);
}

#[test]
fn forward_without_layers_is_invalid_state() {
    let test = NeuralNetwork::<F>::new();
    assert!(matches!(test.forward(&sample(&[1.0], &[0.0])), Err(NetError::InvalidState)));
    assert!(matches!(test.evaluate(&Sample::predict(fs(&[1.0]))), Err(NetError::InvalidState)));
    let mut test = test;
    assert_eq!(test.train(vec![sample(&[1.0], &[0.0])], 1, F(0.1)), Err(NetError::InvalidState));
}

#[test]
fn forward_with_wrong_input_count_fails() {
    let mut test = NeuralNetwork::new();
    test.add_layer(NeuralLayer::<F>::new(1, 2, Sigmoid::new())).unwrap();
    assert!(matches!(test.forward(&sample(&[1.0, 0.0, 1.0], &[0.0])), Err(NetError::DimensionMismatch)));
}

#[test]
fn evaluate_gives_one_row_per_last_layer_neuron() {
    let mut test = NeuralNetwork::new();
    test.add_layer(NeuralLayer::<F>::new(4, 3, Sigmoid::new())).unwrap();
    test.add_layer(NeuralLayer::new(5, 4, HyperbolicTangent::new())).unwrap();
    test.add_layer(NeuralLayer::new(2, 5, SoftMax::new())).unwrap();
    let out = test.evaluate(&Sample::predict(fs(&[0.5, -1.0, 2.0]))).unwrap();
    assert_eq!((out.rows(), out.cols()), (1, 2));
    let forward = test.forward(&Sample::predict(fs(&[0.5, -1.0, 2.0]))).unwrap();
    assert_eq!(cells(&forward[2]), cells(&out));
    assert_eq!((forward[0].cols(), forward[1].cols()), (4, 5));
}

#[test]
fn training_loss_falls_every_epoch() {
    let mut test = NeuralNetwork::new();
    let mut rng = StdRng::seed_from_u64(3);
    test.add_layer(NeuralLayer::<F>::with_generator(1, 2, Sigmoid::new(), &mut rng)).unwrap();
    let dataset = vec![sample(&[1.0, 0.0], &[0.0])];
    let losses = test.train_observed(dataset, 10, F(0.1), &juggernaut::network::NoObserver, &mut rng).unwrap();
    assert_eq!(losses.len(), 10);
    for pair in losses.windows(2) {
        assert!(pair[1].0 < pair[0].0);
    }
}

#[test]
fn single_step_matches_hand_computation() {
    // One identity neuron, weights [0.5, -1], bias 0, input [1, 2], target [1].
    let layer = NeuralLayer::from_parts(matrix(2, &[&[0.5, -1.0]]), matrix(1, &[&[0.0]]), Identity::new()).unwrap();
    let mut test = NeuralNetwork::new();
    test.add_layer(layer).unwrap();
    test.set_shuffle_data(false);
    let losses = test.train(vec![sample(&[1.0, 2.0], &[1.0])], 1, F(0.1)).unwrap();
    // prediction -1.5, error 2.5, loss 2.5^2 / 2
    assert!(close(losses[0], 3.125));
    let layer = &test.get_layers()[0];
    assert_eq!(cells(layer.biases()).len(), 1);
    assert!(close(F(cells(layer.biases())[0][0]), 0.25));
    let w = cells(layer.weights());
    assert!(close(F(w[0][0]), 0.75));
    assert!(close(F(w[0][1]), -0.5));
}

#[test]
fn train_rejects_samples_that_do_not_fit() {
    let mut test = NeuralNetwork::new();
    test.add_layer(NeuralLayer::<F>::new(1, 2, Sigmoid::new())).unwrap();
    let before = cells(test.get_layers()[0].weights());
    let r = test.train(vec![sample(&[1.0, 0.0], &[0.0]), Sample::predict(fs(&[1.0, 0.0]))], 3, F(0.1));
    assert_eq!(r, Err(NetError::DimensionMismatch));
    let r = test.train(vec![sample(&[1.0, 0.0], &[0.0, 1.0])], 3, F(0.1));
    assert_eq!(r, Err(NetError::DimensionMismatch));
    assert_eq!(cells(test.get_layers()[0].weights()), before);
}

#[test]
fn zero_epochs_train_nothing() {
    let mut test = NeuralNetwork::new();
    test.add_layer(NeuralLayer::<F>::new(1, 2, Sigmoid::new())).unwrap();
    let before = cells(test.get_layers()[0].weights());
    assert_eq!(test.train(vec![sample(&[1.0, 0.0], &[0.0])], 0, F(0.1)), Ok(Vec::new()));
    assert_eq!(test.train(vec![sample(&[1.0, 0.0], &[0.0])], -2, F(0.1)), Ok(Vec::new()));
    assert_eq!(cells(test.get_layers()[0].weights()), before);
}

#[test]
fn parts_rebuild_the_network() {
    let mut test = NeuralNetwork::new();
    test.add_layer(NeuralLayer::<F>::new(2, 3, LeakyRectifiedLinearUnit::new(F(0.05)))).unwrap();
    test.add_layer(NeuralLayer::new(1, 2, Sigmoid::new())).unwrap();
    test.set_cost_function(CrossEntropy::new());
    test.set_shuffle_data(false);
    let shapes: Vec<Vec<Vec<f64>>> = test.get_layers().iter().map(|l| cells(l.weights())).collect();
    let (layers, cost, shuffle) = test.into_parts();
    let back = NeuralNetwork::from_parts(layers, cost, shuffle).unwrap();
    let again: Vec<Vec<Vec<f64>>> = back.get_layers().iter().map(|l| cells(l.weights())).collect();
    assert_eq!(shapes, again);
    assert_eq!(*back.get_layers()[0].activation(), LeakyRectifiedLinearUnit::new(F(0.05)));
    assert_eq!(back.get_cost_function(), CostFunction::CrossEntropy);
    assert!(!back.get_shuffle_data());
}

#[test]
fn parts_that_do_not_chain_are_a_parse_error() {
    let layers = vec![NeuralLayer::<F>::new(2, 3, Sigmoid::new()), NeuralLayer::new(1, 3, Sigmoid::new())];
    let r = NeuralNetwork::from_parts(layers, CostFunction::SquaredError, true);
    assert!(matches!(r, Err(NetError::ParseError)));
}

fn trained_weights(shuffle: bool) -> Vec<Vec<f64>> {
    let layer = NeuralLayer::from_parts(matrix(2, &[&[0.5, -0.25]]), matrix(1, &[&[0.0]]), Sigmoid::new()).unwrap();
    let mut test = NeuralNetwork::new();
    test.add_layer(layer).unwrap();
    test.set_shuffle_data(shuffle);
    let dataset = vec![
        sample(&[1.0, 0.0], &[0.0]),
        sample(&[0.0, 1.0], &[1.0]),
        sample(&[1.0, 1.0], &[1.0]),
        sample(&[2.0, 0.5], &[0.0]),
        sample(&[0.5, 2.0], &[1.0]),
        sample(&[3.0, 1.0], &[0.0]),
    ];
    let mut rng = StdRng::seed_from_u64(1);
    test.train_observed(dataset, 1, F(0.5), &juggernaut::network::NoObserver, &mut rng).unwrap();
    cells(test.get_layers()[0].weights())
}

#[test]
fn shuffling_changes_the_order_samples_are_seen_in() {
    assert_eq!(trained_weights(false), trained_weights(false));
    assert_ne!(trained_weights(false), trained_weights(true));
}

#[test]
fn one_sample_step_and_epoch_mean() {
    // One identity neuron, weights [0.5, -1], bias 0.
    let build = || {
        let layer =
            NeuralLayer::from_parts(matrix(2, &[&[0.5, -1.0]]), matrix(1, &[&[0.0]]), Identity::new()).unwrap();
        let mut net = NeuralNetwork::new();
        net.add_layer(layer).unwrap();
        net
    };
    let mut net = build();
    let loss = net.train_sample(&sample(&[1.0, 2.0], &[1.0]), F(0.1));
    // prediction -1.5, error 2.5, loss 2.5^2 / 2; bias 0.25, weights [0.75, -0.5]
    assert!(close(loss, 3.125));
    assert!(close(F(cells(net.get_layers()[0].weights())[0][0]), 0.75));
    assert!(close(F(cells(net.get_layers()[0].biases())[0][0]), 0.25));

    let mut net = build();
    let samples = vec![sample(&[1.0, 2.0], &[1.0]), sample(&[0.0, 0.0], &[0.0])];
    let mean = net.train_epoch(&samples, F(0.1));
    // Second sample, after the first step: prediction 0.25, loss 0.03125.
    assert!(close(mean, (3.125 + 0.03125) / 2.0));
}

#[test]
fn two_layer_step_uses_updated_weights_above() {
    // Identity layers: 1 input -> 1 neuron -> 1 neuron, all weights 1, biases 0.
    let first = NeuralLayer::from_parts(matrix(1, &[&[1.0]]), matrix(1, &[&[0.0]]), Identity::new()).unwrap();
    let second = NeuralLayer::from_parts(matrix(1, &[&[1.0]]), matrix(1, &[&[0.0]]), Identity::new()).unwrap();
    let mut net = NeuralNetwork::new();
    net.add_layer(first).unwrap();
    net.add_layer(second).unwrap();
    net.train_sample(&sample(&[1.0], &[3.0]), F(0.5));
    // Output layer: error 2, delta 2, bias 1, weight 1 + 0.5 * 2 * 1 = 2.
    // First layer: error 2 * 2 = 4 (through the updated weight), bias 2, weight 3.
    assert_eq!(cells(net.get_layers()[1].weights()), vec![vec![2.0]]);
    assert_eq!(cells(net.get_layers()[1].biases()), vec![vec![1.0]]);
    assert_eq!(cells(net.get_layers()[0].weights()), vec![vec![3.0]]);
    assert_eq!(cells(net.get_layers()[0].biases()), vec![vec![2.0]]);
}
