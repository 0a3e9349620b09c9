use vstd::prelude::*;

use crate::error::NetError;
use crate::matrix::Matrix;
use crate::scalar::Scalar;

verus! {

/// How far a predicted row is from its target, as one number.
#[derive(Clone, Copy, Debug, PartialEq, Eq, Structural)]
pub enum CostFunction {
    /// `sum_i (target_i - prediction_i)^2 / 2`.
    SquaredError,
    /// `-sum_i target_i * ln(prediction_i)`, the loss that goes with a normalised
    /// exponential output layer.
    CrossEntropy,
}

/// The squared-error cost.
pub struct SquaredError;

/// The cross-entropy cost.
pub struct CrossEntropy;

impl SquaredError {
    pub fn new() -> (r: CostFunction)
        ensures
            r == CostFunction::SquaredError,
    {
        CostFunction::SquaredError
    }
}

impl CrossEntropy {
    pub fn new() -> (r: CostFunction)
        ensures
            r == CostFunction::CrossEntropy,
    {
        CostFunction::CrossEntropy
    }
}

/// The term one position adds: `(t - p)^2 / 2` for the squared error, `t * ln(p)` for
/// the cross entropy.
pub open spec fn cost_term<N: Scalar>(c: CostFunction, p: N, t: N) -> N {
    match c {
        CostFunction::SquaredError => t.spec_minus(p).spec_times(t.spec_minus(p)).spec_divide(
            N::spec_ratio(2, 1),
        ),
        CostFunction::CrossEntropy => t.spec_times(p.spec_ln()),
    }
}

/// The first `k` terms, summed from the left starting at zero.
pub open spec fn cost_total<N: Scalar>(c: CostFunction, p: Seq<N>, t: Seq<N>, k: nat) -> N
    decreases k,
{
    if k == 0 {
        N::spec_zero()
    } else {
        cost_total(c, p, t, (k - 1) as nat).spec_plus(cost_term(c, p[k - 1], t[k - 1]))
    }
}

/// The loss of the prediction row `p` against the target row `t`:
/// `sum_i (t_i - p_i)^2 / 2` for the squared error, `0 - sum_i t_i * ln(p_i)` for the
/// cross entropy.
pub open spec fn cost_spec<N: Scalar>(c: CostFunction, p: Seq<N>, t: Seq<N>) -> N {
    match c {
        CostFunction::SquaredError => cost_total(c, p, t, p.len()),
        CostFunction::CrossEntropy => N::spec_zero().spec_minus(cost_total(c, p, t, p.len())),
    }
}

/// The name a stored network gives each cost function.
pub open spec fn cost_name(c: CostFunction) -> Seq<char> {
    match c {
        CostFunction::SquaredError => "SquaredError"@,
        CostFunction::CrossEntropy => "CrossEntropy"@,
    }
}

/// The cost function that `name` stands for; `None` for an unknown name.
pub open spec fn cost_named(name: Seq<char>) -> Option<CostFunction> {
    if name == "SquaredError"@ {
        Some(CostFunction::SquaredError)
    } else if name == "CrossEntropy"@ {
        Some(CostFunction::CrossEntropy)
    } else {
        None
    }
}

/// Reading back the name a cost function is stored under gives that cost function.
pub proof fn lemma_cost_name_round_trip(c: CostFunction)
    ensures
        cost_named(cost_name(c)) == Some(c),
{
    reveal_strlit("SquaredError");
    reveal_strlit("CrossEntropy");
    assert("SquaredError"@[0] != "CrossEntropy"@[0]);
}

impl CostFunction {
    /// The name of the cost function, as a stored network gives it.
    pub fn name(&self) -> (r: String)
        ensures
            r@ == cost_name(*self),
    {
        match self {
            CostFunction::SquaredError => "SquaredError".to_owned(),
            CostFunction::CrossEntropy => "CrossEntropy".to_owned(),
        }
    }

    /// The cost function a stored network names; an unknown name is a parse error.
    pub fn from_name(name: &String) -> (r: Result<Self, NetError>)
        ensures
            r.is_ok() <==> cost_named(name@).is_some(),
            r matches Ok(c) ==> Some(c) == cost_named(name@),
            r is Err ==> r->Err_0 == NetError::ParseError,
    {
        if *name == "SquaredError".to_owned() {
            Ok(CostFunction::SquaredError)
        } else if *name == "CrossEntropy".to_owned() {
            Ok(CostFunction::CrossEntropy)
        } else {
            Err(NetError::ParseError)
        }
    }

    /// The loss of a `1 x n` prediction against a `1 x n` target.
    pub fn calc<N: Scalar>(&self, prediction: &Matrix<N>, target: &Matrix<N>) -> (r: Result<N, NetError>)
        ensures
            r.is_ok() <==> prediction.nrows() == 1 && target.has_shape(1, prediction.ncols()),
            r is Err ==> r == Err::<N, NetError>(NetError::DimensionMismatch),
            r matches Ok(v) ==> v == cost_spec(*self, prediction.row_seq(0), target.row_seq(0)),
    {
        if prediction.rows() != 1 || target.rows() != 1 || target.cols() != prediction.cols() {
            return Err(NetError::DimensionMismatch);
        }
        let predicted = prediction.row(0);
        let wanted = target.row(0);
        let two = N::from_ratio(2, 1);
        let mut total = N::zero();
        let mut i: usize = 0;
        while i < predicted.len()
            invariant
                i <= predicted@.len(),
                wanted@.len() == predicted@.len(),
                two == N::spec_ratio(2, 1),
                total == cost_total(*self, predicted@, wanted@, i as nat),
            decreases predicted@.len() - i,
        {
            let term = match self {
                CostFunction::SquaredError => {
                    let d = wanted[i].minus(predicted[i]);
                    d.times(d).divide(two)
                },
                CostFunction::CrossEntropy => wanted[i].times(predicted[i].ln()),
            };
            total = total.plus(term);
            i = i + 1;
        }
        match self {
            CostFunction::SquaredError => Ok(total),
            CostFunction::CrossEntropy => Ok(N::zero().minus(total)),
        }
    }
}

} // verus!
