use vstd::prelude::*;

use crate::matrix::{copy_values, Matrix};

verus! {

/// One data point: the inputs, and the wanted outputs where the point is meant for
/// training rather than prediction.
pub struct Sample<N> {
    pub inputs: Vec<N>,
    pub outputs: Option<Vec<N>>,
}

impl<N: Copy> Sample<N> {
    /// A training sample.
    pub fn new(inputs: Vec<N>, outputs: Vec<N>) -> (r: Sample<N>)
        ensures
            r.inputs == inputs,
            r.outputs == Some(outputs),
    {
        Sample { inputs, outputs: Some(outputs) }
    }

    /// A sample for prediction only, with no wanted outputs.
    pub fn predict(inputs: Vec<N>) -> (r: Sample<N>)
        ensures
            r.inputs == inputs,
            r.outputs.is_none(),
    {
        Sample { inputs, outputs: None }
    }

    pub fn get_inputs_count(&self) -> (r: usize)
        ensures
            r == self.inputs@.len(),
    {
        self.inputs.len()
    }

    /// The number of wanted outputs; none for a prediction sample.
    pub fn get_outputs_count(&self) -> (r: usize)
        ensures
            r == match self.outputs {
                Some(o) => o@.len(),
                None => 0,
            },
    {
        match &self.outputs {
            Some(outputs) => outputs.len(),
            None => 0,
        }
    }
}

/// The inputs of `sample` as a `1 x n` matrix.
pub fn sample_input_to_matrix<N: Copy>(sample: &Sample<N>) -> (r: Matrix<N>)
    ensures
        r.has_shape(1, sample.inputs@.len()),
        r.row_seq(0) == sample.inputs@,
{
    Matrix::row_vector(copy_values(&sample.inputs))
}

/// The wanted outputs of a training sample as a `1 x n` matrix.
pub fn sample_output_to_matrix<N: Copy>(sample: &Sample<N>) -> (r: Matrix<N>)
    requires
        sample.outputs.is_some(),
    ensures
        r.has_shape(1, sample.outputs.unwrap()@.len()),
        r.row_seq(0) == sample.outputs.unwrap()@,
{
    match &sample.outputs {
        Some(outputs) => Matrix::row_vector(copy_values(outputs)),
        None => Matrix::row_vector(Vec::new()),
    }
}

} // verus!
