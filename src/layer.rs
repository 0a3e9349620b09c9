use vstd::prelude::*;

use rand::rngs::StdRng;

use crate::activation::{calc_spec, Activation};
use crate::error::NetError;
use crate::matrix::{dot_spec, partial_dot, Matrix};
use crate::random::{draw_below, fresh_generator};
use crate::scalar::Scalar;

verus! {

/// Initial weights are drawn uniformly from this many steps ...
const WEIGHT_STEPS: u64 = 2_000_001;

/// ... of this size each, counted from `-1`: so they lie in `[-1, 1]`.
pub const WEIGHT_SCALE: i64 = 1_000_000;

/// A layer of neurons: a `neurons x inputs` weight matrix, a `1 x neurons` bias row and
/// the activation applied to the result.
pub struct NeuralLayer<N> {
    weights: Matrix<N>,
    biases: Matrix<N>,
    activation: Activation<N>,
}

impl<N> NeuralLayer<N> {
    #[verifier::type_invariant]
    spec fn inv(&self) -> bool {
        self.biases.has_shape(1, self.weights.nrows())
    }

    pub closed spec fn weights_view(&self) -> Matrix<N> {
        self.weights
    }

    pub closed spec fn biases_view(&self) -> Matrix<N> {
        self.biases
    }

    pub closed spec fn activation_view(&self) -> Activation<N> {
        self.activation
    }

    /// The number of values the layer takes in.
    pub open spec fn input_count(&self) -> nat {
        self.weights_view().ncols()
    }

    /// The number of values the layer puts out.
    pub open spec fn neuron_count(&self) -> nat {
        self.weights_view().nrows()
    }

    /// Same shape and activation; the weights and biases may differ.
    pub open spec fn same_kind(&self, other: &Self) -> bool {
        &&& self.input_count() == other.input_count()
        &&& self.neuron_count() == other.neuron_count()
        &&& self.activation_view() == other.activation_view()
    }

    pub fn inputs(&self) -> (r: usize)
        ensures
            r == self.input_count(),
    {
        self.weights.cols()
    }

    pub fn neurons(&self) -> (r: usize)
        ensures
            r == self.neuron_count(),
    {
        self.weights.rows()
    }

    pub fn weights(&self) -> (r: &Matrix<N>)
        ensures
            *r == self.weights_view(),
    {
        &self.weights
    }

    pub fn biases(&self) -> (r: &Matrix<N>)
        ensures
            *r == self.biases_view(),
            r.has_shape(1, self.neuron_count()),
    {
        proof {
            use_type_invariant(self);
        }
        &self.biases
    }

    pub fn activation(&self) -> (r: &Activation<N>)
        ensures
            *r == self.activation_view(),
    {
        &self.activation
    }

    /// A layer from its parts; the biases must form a `1 x neurons` row, where the
    /// weights have one row per neuron.
    pub fn from_parts(weights: Matrix<N>, biases: Matrix<N>, activation: Activation<N>) -> (r: Result<
        Self,
        NetError,
    >)
        ensures
            r.is_ok() <==> biases.has_shape(1, weights.nrows()),
            r is Err ==> r == Err::<Self, NetError>(NetError::DimensionMismatch),
            r matches Ok(layer) ==> {
                &&& layer.weights_view() == weights
                &&& layer.biases_view() == biases
                &&& layer.activation_view() == activation
            },
    {
        if biases.rows() != 1 || biases.cols() != weights.rows() {
            return Err(NetError::DimensionMismatch);
        }
        Ok(NeuralLayer { weights, biases, activation })
    }

    /// Replaces the weights with a matrix of the same shape; leaves the layer as it
    /// was otherwise.
    pub fn set_weights(&mut self, weights: Matrix<N>) -> (r: Result<(), NetError>)
        ensures
            r.is_ok() <==> weights.has_shape(old(self).neuron_count(), old(self).input_count()),
            r is Err ==> r == Err::<(), NetError>(NetError::DimensionMismatch) && *final(self) == *old(self),
            r is Ok ==> {
                &&& final(self).weights_view() == weights
                &&& final(self).biases_view() == old(self).biases_view()
                &&& final(self).activation_view() == old(self).activation_view()
            },
    {
        proof {
            use_type_invariant(&*self);
        }
        if weights.rows() != self.weights.rows() || weights.cols() != self.weights.cols() {
            return Err(NetError::DimensionMismatch);
        }
        self.weights = weights;
        Ok(())
    }

    /// Replaces the biases with a matrix of the same shape; leaves the layer as it was
    /// otherwise.
    pub fn set_biases(&mut self, biases: Matrix<N>) -> (r: Result<(), NetError>)
        ensures
            r.is_ok() <==> biases.has_shape(1, old(self).neuron_count()),
            r is Err ==> r == Err::<(), NetError>(NetError::DimensionMismatch) && *final(self) == *old(self),
            r is Ok ==> {
                &&& final(self).weights_view() == old(self).weights_view()
                &&& final(self).biases_view() == biases
                &&& final(self).activation_view() == old(self).activation_view()
            },
    {
        proof {
            use_type_invariant(&*self);
        }
        if biases.rows() != 1 || biases.cols() != self.weights.rows() {
            return Err(NetError::DimensionMismatch);
        }
        self.biases = biases;
        Ok(())
    }
}

impl<N: Scalar> NeuralLayer<N> {
    /// The pre-activation values for the input row `row`: for each neuron `j`, the
    /// inner product of `row` with the weights of `j`, plus the bias of `j`.
    pub open spec fn pre_activation(&self, row: Seq<N>) -> Seq<N> {
        Seq::new(
            self.neuron_count(),
            |j: int| dot_spec(row, self.weights_view().row_seq(j)).spec_plus(self.biases_view().at(0, j)),
        )
    }

    /// The layer's output for the input row `row`.
    pub open spec fn output_for(&self, row: Seq<N>) -> Seq<N> {
        calc_spec(self.activation_view(), self.pre_activation(row))
    }

    /// `after` is this layer after one gradient step with signal `delta` (one value
    /// per neuron), fed by `previous` (one value per input), at rate `rate`:
    /// `bias[j] + delta[j] * rate` and `weight[j][k] + 0 + (delta[j] * rate) * previous[k]`.
    pub open spec fn stepped(&self, after: &Self, delta: Seq<N>, previous: Seq<N>, rate: N) -> bool {
        &&& after.same_kind(self)
        &&& forall|j: int|
            0 <= j < self.neuron_count() ==> #[trigger] after.biases_view().at(0, j) == self.biases_view().at(
                0,
                j,
            ).spec_plus(delta[j].spec_times(rate))
        &&& forall|j: int, k: int|
            0 <= j < self.neuron_count() && 0 <= k < self.input_count() ==> #[trigger] after.weights_view().at(
                j,
                k,
            ) == self.weights_view().at(j, k).spec_plus(
                N::spec_zero().spec_plus(delta[j].spec_times(rate).spec_times(previous[k])),
            )
    }

    /// A layer of `neurons` neurons over `inputs` inputs, with weights drawn at random
    /// from `[-1, 1]` and zero biases. The generator is seeded by the operating system,
    /// or by a fixed seed where the operating system gives no entropy; use
    /// `with_generator` to choose it.
    pub fn new(neurons: usize, inputs: usize, activation: Activation<N>) -> (r: Self)
        ensures
            r.neuron_count() == neurons,
            r.input_count() == inputs,
            r.activation_view() == activation,
            r.has_initial_values(),
    {
        let mut rng = fresh_generator();
        Self::with_generator(neurons, inputs, activation, &mut rng)
    }

    /// As `new`, drawing the weights from `rng`.
    pub fn with_generator(neurons: usize, inputs: usize, activation: Activation<N>, rng: &mut StdRng) -> (r:
        Self)
        ensures
            r.neuron_count() == neurons,
            r.input_count() == inputs,
            r.activation_view() == activation,
            r.has_initial_values(),
    {
        let mut rows: Vec<Vec<N>> = Vec::new();
        let mut i: usize = 0;
        while i < neurons
            invariant
                i <= neurons,
                rows@.len() == i,
                forall|a: int| 0 <= a < i ==> (#[trigger] rows@[a])@.len() == inputs,
                forall|a: int, b: int| 0 <= a < i && 0 <= b < inputs ==> is_initial_weight(#[trigger] rows@[a]@[b]),
            decreases neurons - i,
        {
            let mut row: Vec<N> = Vec::new();
            let mut j: usize = 0;
            while j < inputs
                invariant
                    j <= inputs,
                    row@.len() == j,
                    forall|b: int| 0 <= b < j ==> is_initial_weight(#[trigger] row@[b]),
                decreases inputs - j,
            {
                let step = draw_below(rng, WEIGHT_STEPS);
                let numer = step as i64 - WEIGHT_SCALE;
                let w = N::from_ratio(numer, WEIGHT_SCALE);
                assert(is_initial_weight(w));
                row.push(w);
                j = j + 1;
            }
            rows.push(row);
            i = i + 1;
        }
        let weights = Matrix::from_rows(inputs, rows).unwrap();
        assert forall|a: int, b: int| 0 <= a < neurons && 0 <= b < inputs implies is_initial_weight(
            #[trigger] weights.at(a, b),
        ) by {
            assert(weights.row_seq(a) == rows@[a]@);
            assert(weights.row_seq(a)[b] == weights.at(a, b));
        }
        let biases = Matrix::zero(1, neurons);
        NeuralLayer { weights, biases, activation }
    }

    /// The layer's output for each row of `input`: the activation of
    /// `input . transpose(weights)` with the bias row added to every row.
    pub fn feed(&self, input: &Matrix<N>) -> (r: Result<Matrix<N>, NetError>)
        ensures
            r.is_ok() <==> input.ncols() == self.input_count(),
            r is Err ==> r == Err::<Matrix<N>, NetError>(NetError::DimensionMismatch),
            r matches Ok(m) ==> {
                &&& m.has_shape(input.nrows(), self.neuron_count())
                &&& forall|i: int| 0 <= i < input.nrows() ==> #[trigger] m.row_seq(i) == self.output_for(input.row_seq(i))
            },
    {
        proof {
            use_type_invariant(self);
        }
        let transposed = self.weights.transpose();
        let pre = match input.dot(&transposed) {
            Ok(m) => m,
            Err(e) => return Err(e),
        };
        let shifted = pre.add_to_each_row(&self.biases).unwrap();
        let out = self.activation.apply(&shifted);
        assert forall|i: int| 0 <= i < input.nrows() implies #[trigger] out.row_seq(i) == self.output_for(
            input.row_seq(i),
        ) by {
            assert forall|j: int| 0 <= j < self.neuron_count() implies #[trigger] transposed.col_seq(j)
                == self.weights.row_seq(j) by {
                assert(transposed.col_seq(j) =~= self.weights.row_seq(j));
            }
            assert(shifted.row_seq(i) =~= self.pre_activation(input.row_seq(i)));
        }
        Ok(out)
    }

    /// One gradient step: adds `delta * rate` to the biases and
    /// `transpose(delta * rate) . previous` to the weights, where `delta` is the
    /// layer's `1 x neurons` gradient signal and `previous` the `1 x inputs` row that
    /// fed the layer.
    pub fn apply_gradient(&mut self, delta: &Matrix<N>, previous: &Matrix<N>, rate: N)
        requires
            delta.has_shape(1, old(self).neuron_count()),
            previous.has_shape(1, old(self).input_count()),
        ensures
            old(self).stepped(final(self), delta.row_seq(0), previous.row_seq(0), rate),
    {
        proof {
            use_type_invariant(&*self);
        }
        let step = delta.scale(rate);
        let biases = self.biases.sum(&step).unwrap();
        let step_t = step.transpose();
        let change = step_t.dot(previous).unwrap();
        let weights = self.weights.sum(&change).unwrap();
        proof {
            assert forall|j: int, k: int|
                0 <= j < self.weights.nrows() && 0 <= k < self.weights.ncols() implies #[trigger] change.at(j, k)
                == N::spec_zero().spec_plus(delta.at(0, j).spec_times(rate).spec_times(previous.at(0, k))) by {
                assert(step_t.row_seq(j)[0] == step.at(0, j));
                assert(previous.col_seq(k)[0] == previous.at(0, k));
                reveal_with_fuel(partial_dot, 2);
            }
        }
        self.biases = biases;
        self.weights = weights;
    }
}

/// A starting weight: `n / 1_000_000` for some `n` in `[-1_000_000, 1_000_000]`.
pub open spec fn is_initial_weight<N: Scalar>(w: N) -> bool {
    exists|n: i64| -WEIGHT_SCALE <= n <= WEIGHT_SCALE && w == N::spec_ratio(n, WEIGHT_SCALE)
}

impl<N: Scalar> NeuralLayer<N> {
    /// Zero biases, and every weight a starting weight.
    pub open spec fn has_initial_values(&self) -> bool {
        &&& forall|j: int| 0 <= j < self.neuron_count() ==> #[trigger] self.biases_view().at(0, j) == N::spec_zero()
        &&& forall|j: int, k: int|
            0 <= j < self.neuron_count() && 0 <= k < self.input_count() ==> is_initial_weight(
                #[trigger] self.weights_view().at(j, k),
            )
    }
}

} // verus!
