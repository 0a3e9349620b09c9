use vstd::prelude::*;

use rand::rngs::StdRng;

use crate::activation::derivative_spec;
use crate::cost::{cost_spec, CostFunction};
use crate::error::NetError;
use crate::layer::NeuralLayer;
use crate::matrix::{dot_spec, Matrix};
use crate::random::{fresh_generator, shuffle};
use crate::sample::{sample_input_to_matrix, sample_output_to_matrix, Sample};
use crate::scalar::Scalar;

verus! {

broadcast use vstd::seq_lib::group_to_multiset_ensures;

/// Consecutive layers fit together: each takes in as many values as the one before it
/// puts out.
pub open spec fn layers_chain<N>(layers: Seq<NeuralLayer<N>>) -> bool {
    forall|i: int| 0 < i < layers.len() ==> #[trigger] layers[i].input_count() == layers[i - 1].neuron_count()
}

/// Each layer of `after` has the shape and activation of the layer at the same place in
/// `before`.
pub open spec fn same_layer_kinds<N>(after: Seq<NeuralLayer<N>>, before: Seq<NeuralLayer<N>>) -> bool {
    &&& after.len() == before.len()
    &&& forall|k: int| 0 <= k < after.len() ==> #[trigger] after[k].same_kind(&before[k])
}

/// A training sample with `inputs` inputs and `outputs` wanted outputs.
pub open spec fn fits_training<N>(sample: Sample<N>, inputs: nat, outputs: nat) -> bool {
    &&& sample.inputs@.len() == inputs
    &&& sample.outputs matches Some(o) && o@.len() == outputs
}

/// What `train` reports at the end of each epoch.
pub trait TrainingObserver<N> {
    /// Called with the mean loss over the samples of the epoch.
    fn on_error(&self, mean_error: N);

    /// Called with the network as the epoch left it.
    fn on_epoch(&self, network: &NeuralNetwork<N>);
}

/// An observer that ignores every report.
pub struct NoObserver;

impl<N> TrainingObserver<N> for NoObserver {
    fn on_error(&self, mean_error: N) {
    }

    fn on_epoch(&self, network: &NeuralNetwork<N>) {
    }
}

/// A feed-forward network: layers in order, the cost that training minimises, and
/// whether samples are shuffled before each epoch.
pub struct NeuralNetwork<N> {
    layers: Vec<NeuralLayer<N>>,
    cost_function: CostFunction,
    shuffle_data: bool,
}

impl<N> NeuralNetwork<N> {
    #[verifier::type_invariant]
    spec fn inv(&self) -> bool {
        layers_chain(self.layers@)
    }

    pub closed spec fn layers_view(&self) -> Seq<NeuralLayer<N>> {
        self.layers@
    }

    pub closed spec fn cost_view(&self) -> CostFunction {
        self.cost_function
    }

    pub closed spec fn shuffle_view(&self) -> bool {
        self.shuffle_data
    }

    /// The number of inputs the first layer takes.
    pub open spec fn input_count(&self) -> nat {
        self.layers_view()[0].input_count()
    }

    /// The number of outputs the last layer gives.
    pub open spec fn output_count(&self) -> nat {
        self.layers_view().last().neuron_count()
    }

    /// An empty network, with the squared-error cost and shuffling on.
    pub fn new() -> (r: Self)
        ensures
            r.layers_view().len() == 0,
            r.cost_view() == CostFunction::SquaredError,
            r.shuffle_view(),
    {
        NeuralNetwork { layers: Vec::new(), cost_function: CostFunction::SquaredError, shuffle_data: true }
    }

    /// Whether samples are shuffled before each epoch.
    pub fn set_shuffle_data(&mut self, enable: bool)
        ensures
            final(self).layers_view() == old(self).layers_view(),
            final(self).cost_view() == old(self).cost_view(),
            final(self).shuffle_view() == enable,
    {
        proof {
            use_type_invariant(&*self);
        }
        self.shuffle_data = enable;
    }

    pub fn set_cost_function(&mut self, cost_function: CostFunction)
        ensures
            final(self).layers_view() == old(self).layers_view(),
            final(self).cost_view() == cost_function,
            final(self).shuffle_view() == old(self).shuffle_view(),
    {
        proof {
            use_type_invariant(&*self);
        }
        self.cost_function = cost_function;
    }

    /// Appends `layer`, which must take in as many values as the last layer puts out.
    /// On a mismatch the network is left as it was.
    pub fn add_layer(&mut self, layer: NeuralLayer<N>) -> (r: Result<(), NetError>)
        ensures
            r.is_ok() <==> old(self).layers_view().len() == 0 || layer.input_count()
                == old(self).output_count(),
            r is Err ==> {
                &&& r->Err_0 == (NetError::ConfigurationError {
                    expected: old(self).output_count() as usize,
                    got: layer.input_count() as usize,
                })
                &&& *final(self) == *old(self)
            },
            r is Ok ==> {
                &&& final(self).layers_view() == old(self).layers_view().push(layer)
                &&& final(self).cost_view() == old(self).cost_view()
                &&& final(self).shuffle_view() == old(self).shuffle_view()
            },
    {
        proof {
            use_type_invariant(&*self);
        }
        let count = self.layers.len();
        if count > 0 {
            let expected = self.layers[count - 1].neurons();
            let got = layer.inputs();
            if expected != got {
                return Err(NetError::ConfigurationError { expected, got });
            }
        }
        let mut layers: Vec<NeuralLayer<N>> = Vec::new();
        std::mem::swap(&mut self.layers, &mut layers);
        layers.push(layer);
        self.layers = layers;
        Ok(())
    }

    pub fn get_layers(&self) -> (r: &Vec<NeuralLayer<N>>)
        ensures
            r@ == self.layers_view(),
    {
        &self.layers
    }

    pub fn get_cost_function(&self) -> (r: CostFunction)
        ensures
            r == self.cost_view(),
    {
        self.cost_function
    }

    pub fn get_shuffle_data(&self) -> (r: bool)
        ensures
            r == self.shuffle_view(),
    {
        self.shuffle_data
    }

    /// A network from its parts, as a stored network is rebuilt; the layers must fit
    /// together.
    pub fn from_parts(layers: Vec<NeuralLayer<N>>, cost_function: CostFunction, shuffle_data: bool) -> (r:
        Result<Self, NetError>)
        ensures
            r.is_ok() <==> layers_chain(layers@),
            r is Err ==> r->Err_0 == NetError::ParseError,
            r matches Ok(net) ==> {
                &&& net.layers_view() == layers@
                &&& net.cost_view() == cost_function
                &&& net.shuffle_view() == shuffle_data
            },
    {
        let mut i: usize = 1;
        while i < layers.len()
            invariant
                1 <= i,
                forall|a: int| 0 < a < i && a < layers@.len() ==> #[trigger] layers@[a].input_count()
                    == layers@[a - 1].neuron_count(),
            decreases layers@.len() - i,
        {
            if layers[i].inputs() != layers[i - 1].neurons() {
                return Err(NetError::ParseError);
            }
            i = i + 1;
        }
        Ok(NeuralNetwork { layers, cost_function, shuffle_data })
    }

    /// The parts of the network: its layers, its cost and its shuffle flag. The layers
    /// always fit together, so `from_parts` takes them back.
    pub fn into_parts(self) -> (r: (Vec<NeuralLayer<N>>, CostFunction, bool))
        ensures
            r.0@ == self.layers_view(),
            r.1 == self.cost_view(),
            r.2 == self.shuffle_view(),
            layers_chain(r.0@),
    {
        proof {
            use_type_invariant(&self);
        }
        (self.layers, self.cost_function, self.shuffle_data)
    }
}

/// The output of layer `k` when `input` is fed to the first layer.
pub open spec fn forward_spec<N: Scalar>(layers: Seq<NeuralLayer<N>>, input: Seq<N>, k: nat) -> Seq<N>
    decreases k,
{
    if k == 0 {
        layers[0].output_for(input)
    } else {
        layers[k as int].output_for(forward_spec(layers, input, (k - 1) as nat))
    }
}

/// The row that fed layer `k`: the input for the first layer, the output of the layer
/// before otherwise.
pub open spec fn previous_spec<N: Scalar>(layers: Seq<NeuralLayer<N>>, input: Seq<N>, k: nat) -> Seq<N> {
    if k == 0 {
        input
    } else {
        forward_spec(layers, input, (k - 1) as nat)
    }
}

/// The gradient signal of the layer `pos` places from the output, during a step on
/// (`input`, `target`) that started from `before`, where `after` holds the layers above
/// it as already updated. At the output the error is `target - output`; below it, the
/// signal of the layer above times that layer's (updated) weights. Either way it is
/// multiplied value by value with the activation's derivative at the layer's output.
pub open spec fn delta_spec<N: Scalar>(
    before: Seq<NeuralLayer<N>>,
    after: Seq<NeuralLayer<N>>,
    input: Seq<N>,
    target: Seq<N>,
    pos: nat,
) -> Seq<N>
    decreases pos,
{
    let index = (before.len() - 1 - pos) as nat;
    let out = forward_spec(before, input, index);
    let error = if pos == 0 {
        Seq::new(out.len(), |j: int| target[j].spec_minus(out[j]))
    } else {
        let above = delta_spec(before, after, input, target, (pos - 1) as nat);
        Seq::new(out.len(), |c: int| dot_spec(above, after[(index + 1) as int].weights_view().col_seq(c)))
    };
    let slope = derivative_spec(before[index as int].activation_view(), out);
    Seq::new(out.len(), |j: int| error[j].spec_times(slope[j]))
}

/// `after` is `before` after one step of gradient descent on (`input`, `target`) at
/// `rate`: each layer took its own signal, fed by the row that fed it.
pub open spec fn trained_on<N: Scalar>(
    before: Seq<NeuralLayer<N>>,
    after: Seq<NeuralLayer<N>>,
    input: Seq<N>,
    target: Seq<N>,
    rate: N,
) -> bool {
    &&& after.len() == before.len()
    &&& forall|k: int|
        0 <= k < before.len() ==> before[k].stepped(
            &#[trigger] after[k],
            delta_spec(before, after, input, target, (before.len() - 1 - k) as nat),
            previous_spec(before, input, k as nat),
            rate,
        )
}

/// A signal reads only the layers above it.
proof fn lemma_delta_reads_above<N: Scalar>(
    before: Seq<NeuralLayer<N>>,
    a1: Seq<NeuralLayer<N>>,
    a2: Seq<NeuralLayer<N>>,
    input: Seq<N>,
    target: Seq<N>,
    pos: nat,
)
    requires
        pos < before.len(),
        a1.len() == before.len(),
        a2.len() == before.len(),
        forall|k: int| before.len() - pos <= k < before.len() ==> #[trigger] a1[k] == a2[k],
    ensures
        delta_spec(before, a1, input, target, pos) == delta_spec(before, a2, input, target, pos),
    decreases pos,
{
    if pos > 0 {
        lemma_delta_reads_above(before, a1, a2, input, target, (pos - 1) as nat);
        let index = before.len() - 1 - pos;
        assert(a1[index + 1] == a2[index + 1]);
    }
}

/// The loss of `sample` on a network with layers `layers` and cost `cost`, before any
/// step is taken on it.
pub open spec fn sample_loss<N: Scalar>(layers: Seq<NeuralLayer<N>>, cost: CostFunction, sample: Sample<N>) -> N {
    cost_spec(cost, forward_spec(layers, sample.inputs@, (layers.len() - 1) as nat), sample.outputs.unwrap()@)
}

impl<N: Scalar> NeuralNetwork<N> {
    /// The activated output of every layer for `sample`, first layer first; the last
    /// is the network's prediction.
    pub fn forward(&self, sample: &Sample<N>) -> (r: Result<Vec<Matrix<N>>, NetError>)
        ensures
            self.layers_view().len() == 0 ==> r is Err && r->Err_0 == NetError::InvalidState,
            self.layers_view().len() > 0 ==> (r.is_ok() <==> sample.inputs@.len() == self.input_count()),
            self.layers_view().len() > 0 && r is Err ==> r->Err_0 == NetError::DimensionMismatch,
            r matches Ok(outs) ==> {
                &&& outs@.len() == self.layers_view().len()
                &&& forall|k: int|
                    0 <= k < outs@.len() ==> #[trigger] outs@[k].has_shape(
                        1,
                        self.layers_view()[k].neuron_count(),
                    )
                &&& forall|k: int|
                    0 <= k < outs@.len() ==> #[trigger] outs@[k].row_seq(0) == forward_spec(
                        self.layers_view(),
                        sample.inputs@,
                        k as nat,
                    )
            },
    {
        proof {
            use_type_invariant(self);
        }
        if self.layers.len() == 0 {
            return Err(NetError::InvalidState);
        }
        if sample.inputs.len() != self.layers[0].inputs() {
            return Err(NetError::DimensionMismatch);
        }
        let input = sample_input_to_matrix(sample);
        let mut outs: Vec<Matrix<N>> = Vec::new();
        let mut k: usize = 0;
        while k < self.layers.len()
            invariant
                layers_chain(self.layers@),
                self.layers@.len() > 0,
                k <= self.layers@.len(),
                input.has_shape(1, self.layers@[0].input_count()),
                input.row_seq(0) == sample.inputs@,
                outs@.len() == k,
                forall|a: int| 0 <= a < k ==> #[trigger] outs@[a].has_shape(1, self.layers@[a].neuron_count()),
                forall|a: int|
                    0 <= a < k ==> #[trigger] outs@[a].row_seq(0) == forward_spec(self.layers@, sample.inputs@, a as nat),
            decreases self.layers@.len() - k,
        {
            let out = if k == 0 {
                self.layers[0].feed(&input).unwrap()
            } else {
                assert(self.layers@[k as int].input_count() == self.layers@[k - 1].neuron_count());
                assert(outs@[k - 1].has_shape(1, self.layers@[k - 1].neuron_count()));
                assert(outs@[k - 1].row_seq(0) == forward_spec(self.layers@, sample.inputs@, (k - 1) as nat));
                self.layers[k].feed(&outs[k - 1]).unwrap()
            };
            outs.push(out);
            k = k + 1;
        }
        Ok(outs)
    }

    /// The network's prediction for `sample`: the output of the last layer.
    pub fn evaluate(&self, sample: &Sample<N>) -> (r: Result<Matrix<N>, NetError>)
        ensures
            self.layers_view().len() == 0 ==> r is Err && r->Err_0 == NetError::InvalidState,
            self.layers_view().len() > 0 ==> (r.is_ok() <==> sample.inputs@.len() == self.input_count()),
            self.layers_view().len() > 0 && r is Err ==> r->Err_0 == NetError::DimensionMismatch,
            r matches Ok(m) ==> {
                &&& m.has_shape(1, self.output_count())
                &&& m.row_seq(0) == forward_spec(
                    self.layers_view(),
                    sample.inputs@,
                    (self.layers_view().len() - 1) as nat,
                )
            },
    {
        let mut outs = match self.forward(sample) {
            Ok(outs) => outs,
            Err(e) => return Err(e),
        };
        proof {
            let last = outs@.len() - 1;
            assert(outs@[last].row_seq(0) == forward_spec(self.layers_view(), sample.inputs@, last as nat));
            assert(outs@[last].has_shape(1, self.layers_view()[last].neuron_count()));
        }
        Ok(outs.pop().unwrap())
    }

    /// The loss of a prediction against its target, by the network's cost function.
    fn error(&self, prediction: &Matrix<N>, target: &Matrix<N>) -> (r: N)
        requires
            prediction.nrows() == 1,
            target.has_shape(1, prediction.ncols()),
        ensures
            r == cost_spec(self.cost_view(), prediction.row_seq(0), target.row_seq(0)),
    {
        self.cost_function.calc(prediction, target).unwrap()
    }

    /// One step of online gradient descent on one training sample, which must fit the
    /// network; returns the sample's loss before the step.
    pub fn train_sample(&mut self, sample: &Sample<N>, learning_rate: N) -> (r: N)
        requires
            old(self).layers_view().len() > 0,
            fits_training(*sample, old(self).input_count(), old(self).output_count()),
        ensures
            trained_on(
                old(self).layers_view(),
                final(self).layers_view(),
                sample.inputs@,
                sample.outputs.unwrap()@,
                learning_rate,
            ),
            same_layer_kinds(final(self).layers_view(), old(self).layers_view()),
            final(self).cost_view() == old(self).cost_view(),
            final(self).shuffle_view() == old(self).shuffle_view(),
            r == sample_loss(old(self).layers_view(), old(self).cost_view(), *sample),
    {
        proof {
            use_type_invariant(&*self);
        }
        let outs = self.forward(sample).unwrap();
        let input = sample_input_to_matrix(sample);
        let target = sample_output_to_matrix(sample);
        let ghost before = self.layers@;
        let ghost inputs = sample.inputs@;
        let ghost wanted = sample.outputs.unwrap()@;
        let mut layers: Vec<NeuralLayer<N>> = Vec::new();
        std::mem::swap(&mut self.layers, &mut layers);
        let count = layers.len();
        let mut loss = N::zero();
        let mut delta: Matrix<N> = Matrix::zero(0, 0);
        let mut pos: usize = 0;
        while pos < count
            invariant
                count == layers@.len(),
                count == before.len(),
                before == old(self).layers@,
                count > 0,
                layers_chain(layers@),
                same_layer_kinds(layers@, before),
                self.cost_function == old(self).cost_function,
                self.shuffle_data == old(self).shuffle_data,
                pos <= count,
                outs@.len() == count,
                forall|k: int| 0 <= k < count ==> #[trigger] outs@[k].has_shape(1, layers@[k].neuron_count()),
                forall|k: int| 0 <= k < count ==> #[trigger] outs@[k].row_seq(0) == forward_spec(before, inputs, k as nat),
                input.has_shape(1, layers@[0].input_count()),
                input.row_seq(0) == inputs,
                target.has_shape(1, layers@[count - 1].neuron_count()),
                target.row_seq(0) == wanted,
                pos > 0 ==> delta.has_shape(1, layers@[count - pos].neuron_count()),
                pos > 0 ==> delta.row_seq(0) == delta_spec(before, layers@, inputs, wanted, (pos - 1) as nat),
                pos > 0 ==> loss == cost_spec(self.cost_function, outs@[count - 1].row_seq(0), wanted),
                forall|k: int| 0 <= k < count - pos ==> #[trigger] layers@[k] == before[k],
                forall|k: int|
                    count - pos <= k < count ==> before[k].stepped(
                        &#[trigger] layers@[k],
                        delta_spec(before, layers@, inputs, wanted, (count - 1 - k) as nat),
                        previous_spec(before, inputs, k as nat),
                        learning_rate,
                    ),
            decreases count - pos,
        {
            // Layers are visited from the output backwards: `index` is the place of
            // the layer in forward order.
            let index = count - 1 - pos;
            let output = &outs[index];
            assert(outs@[index as int].has_shape(1, layers@[index as int].neuron_count()));
            let ghost above = delta.row_seq(0);
            let error = if pos == 0 {
                loss = self.error(output, &target);
                target.difference(output).unwrap()
            } else {
                assert(layers@[index + 1].input_count() == layers@[index as int].neuron_count());
                delta.dot(layers[index + 1].weights()).unwrap()
            };
            assert(error.has_shape(1, layers@[index as int].neuron_count()));
            let derivative = layers[index].activation().gradient(output);
            delta = error.hadamard(&derivative).unwrap();
            proof {
                assert(layers@[index as int] == before[index as int]);
                let ds = delta_spec(before, layers@, inputs, wanted, pos as nat);
                let out_s = forward_spec(before, inputs, index as nat);
                assert(output.row_seq(0) == out_s);
                assert(derivative.row_seq(0) == derivative_spec(before[index as int].activation_view(), out_s));
                assert forall|j: int| 0 <= j < ds.len() implies #[trigger] delta.row_seq(0)[j] == ds[j] by {
                    assert(derivative.row_seq(0)[j] == derivative.at(0, j));
                    assert(output.row_seq(0)[j] == output.at(0, j));
                    if pos == 0 {
                        assert(target.row_seq(0)[j] == target.at(0, j));
                    }
                }
                assert(delta.row_seq(0) =~= ds);
            }
            let previous = if index == 0 {
                &input
            } else {
                assert(layers@[index as int].input_count() == layers@[index - 1].neuron_count());
                assert(outs@[index - 1].has_shape(1, layers@[index - 1].neuron_count()));
                &outs[index - 1]
            };
            assert(previous.row_seq(0) == previous_spec(before, inputs, index as nat));
            let ghost mid = layers@;
            layers[index].apply_gradient(&delta, previous, learning_rate);
            proof {
                assert forall|k: int| 0 <= k < layers@.len() implies #[trigger] layers@[k].same_kind(&before[k]) by {
                    if k != index {
                        assert(layers@[k] == mid[k]);
                        assert(mid[k].same_kind(&before[k]));
                    }
                }
                assert forall|i: int| 0 < i < layers@.len() implies #[trigger] layers@[i].input_count()
                    == layers@[i - 1].neuron_count() by {
                    assert(layers@[i].same_kind(&before[i]));
                    assert(layers@[i - 1].same_kind(&before[i - 1]));
                    assert(before[i].input_count() == before[i - 1].neuron_count());
                }
                lemma_delta_reads_above(before, mid, layers@, inputs, wanted, pos as nat);
                assert forall|k: int|
                    count - (pos + 1) <= k < count implies before[k].stepped(
                    &#[trigger] layers@[k],
                    delta_spec(before, layers@, inputs, wanted, (count - 1 - k) as nat),
                    previous_spec(before, inputs, k as nat),
                    learning_rate,
                ) by {
                    if k != index {
                        assert(layers@[k] == mid[k]);
                        lemma_delta_reads_above(before, mid, layers@, inputs, wanted, (count - 1 - k) as nat);
                    }
                }
            }
            pos = pos + 1;
        }
        self.layers = layers;
        proof {
            assert(outs@[count - 1].row_seq(0) == forward_spec(before, inputs, (count - 1) as nat));
        }
        loss
    }

    /// One epoch: a step of online gradient descent on each sample in turn, every
    /// sample fitting the network. Returns the mean loss of the samples, each taken
    /// just before its own step.
    pub fn train_epoch(&mut self, samples: &Vec<Sample<N>>, learning_rate: N) -> (r: N)
        requires
            old(self).layers_view().len() > 0,
            forall|i: int|
                0 <= i < samples@.len() ==> #[trigger] fits_training(
                    samples@[i],
                    old(self).input_count(),
                    old(self).output_count(),
                ),
        ensures
            epoch_result(
                old(self).layers_view(),
                final(self).layers_view(),
                samples@,
                learning_rate,
                old(self).cost_view(),
                r,
            ),
            same_layer_kinds(final(self).layers_view(), old(self).layers_view()),
            final(self).cost_view() == old(self).cost_view(),
            final(self).shuffle_view() == old(self).shuffle_view(),
    {
        proof {
            use_type_invariant(&*self);
        }
        let count = self.layers.len();
        let ghost inputs = self.layers@[0].input_count();
        let ghost outputs = self.layers@[count - 1].neuron_count();
        let ghost mut states: Seq<Seq<NeuralLayer<N>>> = seq![self.layers@];
        let ghost mut losses: Seq<N> = Seq::empty();
        let mut total = N::zero();
        let mut s: usize = 0;
        while s < samples.len()
            invariant
                s <= samples@.len(),
                count == self.layers@.len(),
                count > 0,
                same_layer_kinds(self.layers@, old(self).layers@),
                self.cost_function == old(self).cost_function,
                self.shuffle_data == old(self).shuffle_data,
                inputs == old(self).input_count(),
                outputs == old(self).output_count(),
                forall|a: int|
                    0 <= a < samples@.len() ==> #[trigger] fits_training(samples@[a], inputs, outputs),
                states.len() == s + 1,
                states[0] == old(self).layers@,
                states[s as int] == self.layers@,
                forall|t: int|
                    0 <= t < s ==> trained_on(
                        #[trigger] states[t],
                        states[t + 1],
                        samples@[t].inputs@,
                        samples@[t].outputs.unwrap()@,
                        learning_rate,
                    ),
                losses.len() == s,
                forall|t: int|
                    0 <= t < s ==> #[trigger] losses[t] == sample_loss(states[t], self.cost_function, samples@[t]),
                total == sum_seq(losses),
            decreases samples@.len() - s,
        {
            proof {
                use_type_invariant(&*self);
                assert(self.layers@[0].same_kind(&old(self).layers@[0]));
                assert(self.layers@[count - 1].same_kind(&old(self).layers@[count - 1]));
                assert(fits_training(samples@[s as int], inputs, outputs));
            }
            let ghost before = self.layers@;
            let loss = self.train_sample(&samples[s], learning_rate);
            proof {
                assert forall|k: int| 0 <= k < self.layers@.len() implies #[trigger] self.layers@[k].same_kind(
                    &old(self).layers@[k],
                ) by {
                    assert(self.layers@[k].same_kind(&before[k]));
                    assert(before[k].same_kind(&old(self).layers@[k]));
                }
                assert(losses.push(loss).drop_last() =~= losses);
                states = states.push(self.layers@);
                losses = losses.push(loss);
            }
            total = total.plus(loss);
            s = s + 1;
        }
        let mean = total.divide(N::from_count(samples.len()));
        proof {
            assert(epoch_walk(states, samples@, learning_rate));
            assert(losses_of(states, losses, samples@, self.cost_function));
        }
        mean
    }

    /// Trains for `epochs` epochs on `samples` at `learning_rate`, shuffling the
    /// samples before each epoch if shuffling is on and drawing the order from `rng`.
    /// After each epoch `observer` gets the mean loss and then the network. Returns the
    /// mean loss of each epoch.
    ///
    /// Every sample must carry as many inputs as the first layer takes and as many
    /// wanted outputs as the last layer gives; otherwise nothing is trained.
    pub fn train_observed<O: TrainingObserver<N>>(
        &mut self,
        samples: Vec<Sample<N>>,
        epochs: i32,
        learning_rate: N,
        observer: &O,
        rng: &mut StdRng,
    ) -> (r: Result<Vec<N>, NetError>)
        ensures
            old(self).layers_view().len() == 0 ==> r is Err && r->Err_0 == NetError::InvalidState,
            old(self).layers_view().len() > 0 ==> (r.is_ok() <==> forall|i: int|
                0 <= i < samples@.len() ==> #[trigger] fits_training(
                    samples@[i],
                    old(self).input_count(),
                    old(self).output_count(),
                )),
            old(self).layers_view().len() > 0 && r is Err ==> r->Err_0 == NetError::DimensionMismatch,
            r is Err ==> *final(self) == *old(self),
            r matches Ok(losses) ==> training_result(
                old(self).layers_view(),
                final(self).layers_view(),
                samples@,
                old(self).shuffle_view(),
                learning_rate,
                old(self).cost_view(),
                losses@,
            ) && losses@.len() == if epochs > 0 {
                epochs as nat
            } else {
                0
            },
            r is Ok ==> {
                &&& same_layer_kinds(final(self).layers_view(), old(self).layers_view())
                &&& final(self).cost_view() == old(self).cost_view()
                &&& final(self).shuffle_view() == old(self).shuffle_view()
            },
    {
        proof {
            use_type_invariant(&*self);
        }
        let count = self.layers.len();
        if count == 0 {
            return Err(NetError::InvalidState);
        }
        let inputs = self.layers[0].inputs();
        let outputs = self.layers[count - 1].neurons();
        let mut i: usize = 0;
        while i < samples.len()
            invariant
                *self == *old(self),
                count == self.layers@.len(),
                count > 0,
                inputs == self.input_count(),
                outputs == self.output_count(),
                i <= samples@.len(),
                forall|a: int| 0 <= a < i ==> #[trigger] fits_training(samples@[a], inputs as nat, outputs as nat),
            decreases samples@.len() - i,
        {
            let fits = samples[i].inputs.len() == inputs && match &samples[i].outputs {
                Some(wanted) => wanted.len() == outputs,
                None => false,
            };
            if !fits {
                assert(!fits_training(samples@[i as int], inputs as nat, outputs as nat));
                return Err(NetError::DimensionMismatch);
            }
            i = i + 1;
        }
        let ghost given = samples@;
        let mut samples = samples;
        let mut losses: Vec<N> = Vec::new();
        let ghost mut runs: Seq<Seq<NeuralLayer<N>>> = seq![self.layers@];
        let ghost mut orders: Seq<Seq<Sample<N>>> = Seq::empty();
        let mut epoch: i32 = 0;
        while epoch < epochs
            invariant
                0 <= epoch,
                epochs > 0 ==> epoch <= epochs,
                epochs <= 0 ==> epoch == 0,
                losses@.len() == epoch,
                count == self.layers@.len(),
                count > 0,
                same_layer_kinds(self.layers@, old(self).layers@),
                self.cost_function == old(self).cost_function,
                self.shuffle_data == old(self).shuffle_data,
                inputs == self.layers@[0].input_count(),
                outputs == self.layers@[count - 1].neuron_count(),
                inputs == old(self).input_count(),
                outputs == old(self).output_count(),
                samples@.to_multiset() == given.to_multiset(),
                !self.shuffle_data ==> samples@ == given,
                forall|a: int|
                    0 <= a < samples@.len() ==> #[trigger] fits_training(samples@[a], inputs as nat, outputs as nat),
                runs.len() == epoch + 1,
                orders.len() == epoch,
                runs[0] == old(self).layers@,
                runs[epoch as int] == self.layers@,
                forall|e: int|
                    0 <= e < epoch ==> epoch_of(
                        runs[e],
                        runs[e + 1],
                        #[trigger] orders[e],
                        given,
                        self.shuffle_data,
                        learning_rate,
                        self.cost_function,
                        losses@[e],
                    ),
            decreases epochs - epoch,
        {
            if self.shuffle_data {
                let ghost before = samples@;
                shuffle(rng, &mut samples);
                proof {
                    assert forall|a: int| 0 <= a < samples@.len() implies #[trigger] fits_training(
                        samples@[a],
                        inputs as nat,
                        outputs as nat,
                    ) by {
                        assert(samples@.to_multiset().count(samples@[a]) > 0);
                        assert(before.contains(samples@[a]));
                        let b = choose|b: int| 0 <= b < before.len() && before[b] == samples@[a];
                        assert(fits_training(before[b], inputs as nat, outputs as nat));
                    }
                }
            }
            let ghost start = self.layers@;
            proof {
                use_type_invariant(&*self);
                assert(self.layers@[0].same_kind(&old(self).layers@[0]));
                assert(self.layers@[count - 1].same_kind(&old(self).layers@[count - 1]));
            }
            let mean = self.train_epoch(&samples, learning_rate);
            proof {
                assert forall|k: int| 0 <= k < self.layers@.len() implies #[trigger] self.layers@[k].same_kind(
                    &old(self).layers@[k],
                ) by {
                    assert(self.layers@[k].same_kind(&start[k]));
                    assert(start[k].same_kind(&old(self).layers@[k]));
                }
                assert(self.layers@[0].same_kind(&start[0]));
                assert(self.layers@[count - 1].same_kind(&start[count - 1]));
                assert(epoch_of(start, self.layers@, samples@, given, self.shuffle_data, learning_rate, self.cost_function, mean));
                runs = runs.push(self.layers@);
                orders = orders.push(samples@);
            }
            losses.push(mean);
            observer.on_error(mean);
            observer.on_epoch(self);
            epoch = epoch + 1;
        }
        proof {
            assert(training_walk(runs, orders, given, self.shuffle_data, learning_rate, self.cost_function, losses@));
        }
        Ok(losses)
    }

    /// Trains as `train_observed` does, with no observer and a generator seeded by the
    /// operating system, or by a fixed seed where the operating system gives no
    /// entropy.
    pub fn train(&mut self, samples: Vec<Sample<N>>, epochs: i32, learning_rate: N) -> (r: Result<
        Vec<N>,
        NetError,
    >)
        ensures
            old(self).layers_view().len() == 0 ==> r is Err && r->Err_0 == NetError::InvalidState,
            old(self).layers_view().len() > 0 ==> (r.is_ok() <==> forall|i: int|
                0 <= i < samples@.len() ==> #[trigger] fits_training(
                    samples@[i],
                    old(self).input_count(),
                    old(self).output_count(),
                )),
            old(self).layers_view().len() > 0 && r is Err ==> r->Err_0 == NetError::DimensionMismatch,
            r is Err ==> *final(self) == *old(self),
            r matches Ok(losses) ==> training_result(
                old(self).layers_view(),
                final(self).layers_view(),
                samples@,
                old(self).shuffle_view(),
                learning_rate,
                old(self).cost_view(),
                losses@,
            ) && losses@.len() == if epochs > 0 {
                epochs as nat
            } else {
                0
            },
            r is Ok ==> {
                &&& same_layer_kinds(final(self).layers_view(), old(self).layers_view())
                &&& final(self).cost_view() == old(self).cost_view()
                &&& final(self).shuffle_view() == old(self).shuffle_view()
            },
    {
        let mut rng = fresh_generator();
        self.train_observed(samples, epochs, learning_rate, &NoObserver, &mut rng)
    }
}

/// `l[0] + ... + l[len - 1]`, summed from the left starting at zero.
pub open spec fn sum_seq<N: Scalar>(l: Seq<N>) -> N
    decreases l.len(),
{
    if l.len() == 0 {
        N::spec_zero()
    } else {
        sum_seq(l.drop_last()).spec_plus(l.last())
    }
}

/// `states` walks `samples` in order: state `t + 1` is state `t` trained on sample `t`.
pub open spec fn epoch_walk<N: Scalar>(states: Seq<Seq<NeuralLayer<N>>>, samples: Seq<Sample<N>>, rate: N) -> bool {
    &&& states.len() == samples.len() + 1
    &&& forall|t: int|
        0 <= t < samples.len() ==> trained_on(
            #[trigger] states[t],
            states[t + 1],
            samples[t].inputs@,
            samples[t].outputs.unwrap()@,
            rate,
        )
}

/// `losses[t]` is the loss of sample `t` in state `t`.
pub open spec fn losses_of<N: Scalar>(
    states: Seq<Seq<NeuralLayer<N>>>,
    losses: Seq<N>,
    samples: Seq<Sample<N>>,
    cost: CostFunction,
) -> bool {
    &&& losses.len() == samples.len()
    &&& forall|t: int| 0 <= t < samples.len() ==> #[trigger] losses[t] == sample_loss(states[t], cost, samples[t])
}

/// One epoch over `samples` in this order took the layers from `before` to `after`,
/// with `mean` the mean of the samples' losses, each taken just before its own step.
pub open spec fn epoch_result<N: Scalar>(
    before: Seq<NeuralLayer<N>>,
    after: Seq<NeuralLayer<N>>,
    samples: Seq<Sample<N>>,
    rate: N,
    cost: CostFunction,
    mean: N,
) -> bool {
    exists|states: Seq<Seq<NeuralLayer<N>>>, losses: Seq<N>|
        #![trigger epoch_walk(states, samples, rate), losses_of(states, losses, samples, cost)]
        {
            &&& epoch_walk(states, samples, rate)
            &&& losses_of(states, losses, samples, cost)
            &&& states[0] == before
            &&& states[samples.len() as int] == after
            &&& mean == sum_seq(losses).spec_divide(N::spec_count(samples.len() as usize))
        }
}

/// One epoch of training over `order`, which is `given` reordered (and `given` itself
/// where shuffling is off).
pub open spec fn epoch_of<N: Scalar>(
    before: Seq<NeuralLayer<N>>,
    after: Seq<NeuralLayer<N>>,
    order: Seq<Sample<N>>,
    given: Seq<Sample<N>>,
    shuffled: bool,
    rate: N,
    cost: CostFunction,
    mean: N,
) -> bool {
    &&& order.to_multiset() == given.to_multiset()
    &&& !shuffled ==> order == given
    &&& epoch_result(before, after, order, rate, cost, mean)
}

/// `runs` passes through one epoch per entry of `losses`, epoch `e` over `orders[e]`.
pub open spec fn training_walk<N: Scalar>(
    runs: Seq<Seq<NeuralLayer<N>>>,
    orders: Seq<Seq<Sample<N>>>,
    given: Seq<Sample<N>>,
    shuffled: bool,
    rate: N,
    cost: CostFunction,
    losses: Seq<N>,
) -> bool {
    &&& runs.len() == losses.len() + 1
    &&& orders.len() == losses.len()
    &&& forall|e: int|
        0 <= e < losses.len() ==> epoch_of(
            runs[e],
            runs[e + 1],
            #[trigger] orders[e],
            given,
            shuffled,
            rate,
            cost,
            losses[e],
        )
}

/// Training took the layers from `before` to `after` in one epoch per entry of
/// `losses`, each over the samples in some order (the given order where shuffling is
/// off), `losses[e]` being the mean loss of epoch `e`. With no epochs, `after` is
/// `before`.
pub open spec fn training_result<N: Scalar>(
    before: Seq<NeuralLayer<N>>,
    after: Seq<NeuralLayer<N>>,
    given: Seq<Sample<N>>,
    shuffled: bool,
    rate: N,
    cost: CostFunction,
    losses: Seq<N>,
) -> bool {
    exists|runs: Seq<Seq<NeuralLayer<N>>>, orders: Seq<Seq<Sample<N>>>|
        #![trigger training_walk(runs, orders, given, shuffled, rate, cost, losses)]
        {
            &&& training_walk(runs, orders, given, shuffled, rate, cost, losses)
            &&& runs[0] == before
            &&& runs[losses.len() as int] == after
        }
}

} // verus!
