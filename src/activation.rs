use vstd::prelude::*;

use crate::error::NetError;
use crate::matrix::Matrix;
use crate::scalar::Scalar;

verus! {

/// The elementwise transforms a layer can apply to its pre-activation values.
///
/// The set is closed: a stored network names one of these variants, with the slope
/// of the leaky variant as its only parameter.
#[derive(Clone, Copy, Debug, PartialEq)]
pub enum Activation<N> {
    /// `x`.
    Identity,
    /// `1 / (1 + e^-x)`.
    Sigmoid,
    /// `tanh(x)`.
    HyperbolicTangent,
    /// `e^x_i / sum_j e^x_j` over a whole row.
    SoftMax,
    /// `ln(1 + e^x)`.
    SoftPlus,
    /// `max(0, x)`.
    RectifiedLinearUnit,
    /// `x` where `x > 0`, else `alpha * x`.
    LeakyRectifiedLinearUnit { alpha: N },
}

/// The identity activation.
pub struct Identity;

/// The logistic activation.
pub struct Sigmoid;

/// The hyperbolic tangent activation.
pub struct HyperbolicTangent;

/// The normalised exponential over a row.
pub struct SoftMax;

/// The smooth rectifier.
pub struct SoftPlus;

/// The rectifier.
pub struct RectifiedLinearUnit;

/// The rectifier with a slope below zero.
pub struct LeakyRectifiedLinearUnit;

impl Identity {
    pub fn new<N>() -> (r: Activation<N>)
        ensures
            r == Activation::<N>::Identity,
    {
        Activation::Identity
    }
}

impl Sigmoid {
    pub fn new<N>() -> (r: Activation<N>)
        ensures
            r == Activation::<N>::Sigmoid,
    {
        Activation::Sigmoid
    }
}

impl HyperbolicTangent {
    pub fn new<N>() -> (r: Activation<N>)
        ensures
            r == Activation::<N>::HyperbolicTangent,
    {
        Activation::HyperbolicTangent
    }
}

impl SoftMax {
    pub fn new<N>() -> (r: Activation<N>)
        ensures
            r == Activation::<N>::SoftMax,
    {
        Activation::SoftMax
    }
}

impl SoftPlus {
    pub fn new<N>() -> (r: Activation<N>)
        ensures
            r == Activation::<N>::SoftPlus,
    {
        Activation::SoftPlus
    }
}

impl RectifiedLinearUnit {
    pub fn new<N>() -> (r: Activation<N>)
        ensures
            r == Activation::<N>::RectifiedLinearUnit,
    {
        Activation::RectifiedLinearUnit
    }
}

impl LeakyRectifiedLinearUnit {
    /// The leaky rectifier with slope `alpha` below zero.
    pub fn new<N>(alpha: N) -> (r: Activation<N>)
        ensures
            r == (Activation::<N>::LeakyRectifiedLinearUnit { alpha }),
    {
        Activation::LeakyRectifiedLinearUnit { alpha }
    }
}

/// The name a stored network gives each variant.
pub open spec fn activation_name<N>(a: Activation<N>) -> Seq<char> {
    match a {
        Activation::Identity => "Identity"@,
        Activation::Sigmoid => "Sigmoid"@,
        Activation::HyperbolicTangent => "HyperbolicTangent"@,
        Activation::SoftMax => "SoftMax"@,
        Activation::SoftPlus => "SoftPlus"@,
        Activation::RectifiedLinearUnit => "RectifiedLinearUnit"@,
        Activation::LeakyRectifiedLinearUnit { .. } => "LeakyRectifiedLinearUnit"@,
    }
}

/// The parameter a stored network keeps beside the name: the slope of the leaky
/// rectifier, and nothing for the other variants.
pub open spec fn activation_parameter<N>(a: Activation<N>) -> Option<N> {
    match a {
        Activation::LeakyRectifiedLinearUnit { alpha } => Some(alpha),
        _ => None,
    }
}

/// The variant that `name` stands for, with `parameter` as the slope of the leaky
/// rectifier, which needs one; `None` for an unknown name.
pub open spec fn activation_named<N>(name: Seq<char>, parameter: Option<N>) -> Option<Activation<N>> {
    if name == "Identity"@ {
        Some(Activation::Identity)
    } else if name == "Sigmoid"@ {
        Some(Activation::Sigmoid)
    } else if name == "HyperbolicTangent"@ {
        Some(Activation::HyperbolicTangent)
    } else if name == "SoftMax"@ {
        Some(Activation::SoftMax)
    } else if name == "SoftPlus"@ {
        Some(Activation::SoftPlus)
    } else if name == "RectifiedLinearUnit"@ {
        Some(Activation::RectifiedLinearUnit)
    } else if name == "LeakyRectifiedLinearUnit"@ {
        match parameter {
            Some(alpha) => Some(Activation::LeakyRectifiedLinearUnit { alpha }),
            None => None,
        }
    } else {
        None
    }
}

/// Reading back the name and parameter a variant is stored under gives that variant.
pub proof fn lemma_activation_name_round_trip<N>(a: Activation<N>)
    ensures
        activation_named(activation_name(a), activation_parameter(a)) == Some(a),
{
    reveal_strlit("Identity");
    reveal_strlit("Sigmoid");
    reveal_strlit("HyperbolicTangent");
    reveal_strlit("SoftMax");
    reveal_strlit("SoftPlus");
    reveal_strlit("RectifiedLinearUnit");
    reveal_strlit("LeakyRectifiedLinearUnit");
    // Names of equal length differ in one place; the rest differ in length.
    assert("Sigmoid"@[1] != "SoftMax"@[1]);
    assert("Identity"@[0] != "SoftPlus"@[0]);
    assert("Identity"@.len() == 8 && "SoftPlus"@.len() == 8);
    assert("Sigmoid"@.len() == 7 && "SoftMax"@.len() == 7);
    assert("HyperbolicTangent"@.len() == 17);
    assert("RectifiedLinearUnit"@.len() == 19);
    assert("LeakyRectifiedLinearUnit"@.len() == 24);
}

impl<N: Copy> Activation<N> {
    /// The name of the variant, as a stored network gives it.
    pub fn name(&self) -> (r: String)
        ensures
            r@ == activation_name(*self),
    {
        match self {
            Activation::Identity => "Identity".to_owned(),
            Activation::Sigmoid => "Sigmoid".to_owned(),
            Activation::HyperbolicTangent => "HyperbolicTangent".to_owned(),
            Activation::SoftMax => "SoftMax".to_owned(),
            Activation::SoftPlus => "SoftPlus".to_owned(),
            Activation::RectifiedLinearUnit => "RectifiedLinearUnit".to_owned(),
            Activation::LeakyRectifiedLinearUnit { .. } => "LeakyRectifiedLinearUnit".to_owned(),
        }
    }

    /// The slope of the leaky rectifier; `None` for the other variants.
    pub fn parameter(&self) -> (r: Option<N>)
        ensures
            r == activation_parameter(*self),
    {
        match self {
            Activation::LeakyRectifiedLinearUnit { alpha } => Some(*alpha),
            _ => None,
        }
    }

    /// The variant a stored network names, from the fixed set of known variants. An
    /// unknown name, or the leaky rectifier without its slope, is a parse error.
    pub fn from_name(name: &String, parameter: Option<N>) -> (r: Result<Self, NetError>)
        ensures
            r.is_ok() <==> activation_named(name@, parameter).is_some(),
            r matches Ok(a) ==> Some(a) == activation_named(name@, parameter),
            r is Err ==> r->Err_0 == NetError::ParseError,
    {
        if *name == "Identity".to_owned() {
            Ok(Activation::Identity)
        } else if *name == "Sigmoid".to_owned() {
            Ok(Activation::Sigmoid)
        } else if *name == "HyperbolicTangent".to_owned() {
            Ok(Activation::HyperbolicTangent)
        } else if *name == "SoftMax".to_owned() {
            Ok(Activation::SoftMax)
        } else if *name == "SoftPlus".to_owned() {
            Ok(Activation::SoftPlus)
        } else if *name == "RectifiedLinearUnit".to_owned() {
            Ok(Activation::RectifiedLinearUnit)
        } else if *name == "LeakyRectifiedLinearUnit".to_owned() {
            match parameter {
                Some(alpha) => Ok(Activation::LeakyRectifiedLinearUnit { alpha }),
                None => Err(NetError::ParseError),
            }
        } else {
            Err(NetError::ParseError)
        }
    }
}

/// `1 / (1 + e^-v)`.
pub open spec fn logistic_spec<N: Scalar>(v: N) -> N {
    N::spec_one().spec_divide(N::spec_one().spec_plus(N::spec_zero().spec_minus(v).spec_exp()))
}

/// The transform of one value, for the variants that work value by value.
pub open spec fn value_spec<N: Scalar>(a: Activation<N>, v: N) -> N {
    match a {
        Activation::Identity => v,
        Activation::Sigmoid => logistic_spec(v),
        Activation::HyperbolicTangent => v.spec_tanh(),
        Activation::SoftPlus => N::spec_one().spec_plus(v.spec_exp()).spec_ln(),
        Activation::RectifiedLinearUnit => if v.spec_is_positive() {
            v
        } else {
            N::spec_zero()
        },
        Activation::LeakyRectifiedLinearUnit { alpha } => if v.spec_is_positive() {
            v
        } else {
            alpha.spec_times(v)
        },
        Activation::SoftMax => v,
    }
}

/// The local gradient at one value: at the activated value `a` for the logistic,
/// tangent and normalised-exponential variants, at the given value otherwise.
pub open spec fn derivative_value_spec<N: Scalar>(a: Activation<N>, v: N) -> N {
    match a {
        Activation::Identity => N::spec_one(),
        Activation::Sigmoid => v.spec_times(N::spec_one().spec_minus(v)),
        Activation::HyperbolicTangent => N::spec_one().spec_minus(v.spec_times(v)),
        Activation::SoftMax => v.spec_times(N::spec_one().spec_minus(v)),
        Activation::SoftPlus => logistic_spec(v),
        Activation::RectifiedLinearUnit => if v.spec_is_positive() {
            N::spec_one()
        } else {
            N::spec_zero()
        },
        Activation::LeakyRectifiedLinearUnit { alpha } => if v.spec_is_positive() {
            N::spec_one()
        } else {
            alpha
        },
    }
}

/// `e^x[0] + ... + e^x[k-1]`, summed from the left starting at zero.
pub open spec fn sum_exp<N: Scalar>(x: Seq<N>, k: nat) -> N
    decreases k,
{
    if k == 0 {
        N::spec_zero()
    } else {
        sum_exp(x, (k - 1) as nat).spec_plus(x[k - 1].spec_exp())
    }
}

/// What `calc` gives for the row `x`.
pub open spec fn calc_spec<N: Scalar>(a: Activation<N>, x: Seq<N>) -> Seq<N> {
    match a {
        Activation::SoftMax => Seq::new(x.len(), |i: int| x[i].spec_exp().spec_divide(sum_exp(x, x.len()))),
        _ => Seq::new(x.len(), |i: int| value_spec(a, x[i])),
    }
}

/// What `derivative` gives for the row `x`.
pub open spec fn derivative_spec<N: Scalar>(a: Activation<N>, x: Seq<N>) -> Seq<N> {
    Seq::new(x.len(), |i: int| derivative_value_spec(a, x[i]))
}

fn logistic<N: Scalar>(v: N) -> (r: N)
    ensures
        r == logistic_spec(v),
{
    N::one().divide(N::one().plus(N::zero().minus(v).exp()))
}

impl<N: Scalar> Activation<N> {
    fn calc_value(&self, v: N) -> (r: N)
        ensures
            r == value_spec(*self, v),
    {
        match self {
            Activation::Identity => v,
            Activation::Sigmoid => logistic(v),
            Activation::HyperbolicTangent => v.tanh(),
            Activation::SoftPlus => N::one().plus(v.exp()).ln(),
            Activation::RectifiedLinearUnit => {
                if v.is_positive() {
                    v
                } else {
                    N::zero()
                }
            },
            Activation::LeakyRectifiedLinearUnit { alpha } => {
                if v.is_positive() {
                    v
                } else {
                    alpha.times(v)
                }
            },
            // Normalised over a whole row by `soft_max`; `calc` never comes here for it.
            Activation::SoftMax => v,
        }
    }

    fn derivative_value(&self, v: N) -> (r: N)
        ensures
            r == derivative_value_spec(*self, v),
    {
        match self {
            Activation::Identity => N::one(),
            Activation::Sigmoid => v.times(N::one().minus(v)),
            Activation::HyperbolicTangent => N::one().minus(v.times(v)),
            Activation::SoftMax => v.times(N::one().minus(v)),
            Activation::SoftPlus => logistic(v),
            Activation::RectifiedLinearUnit => {
                if v.is_positive() {
                    N::one()
                } else {
                    N::zero()
                }
            },
            Activation::LeakyRectifiedLinearUnit { alpha } => {
                if v.is_positive() {
                    N::one()
                } else {
                    *alpha
                }
            },
        }
    }

    /// The normalised exponential of a row.
    fn soft_max(x: &Vec<N>) -> (r: Vec<N>)
        ensures
            r@ == calc_spec(Activation::<N>::SoftMax, x@),
    {
        let mut exps: Vec<N> = Vec::new();
        let mut total = N::zero();
        let mut i: usize = 0;
        while i < x.len()
            invariant
                i <= x@.len(),
                exps@.len() == i,
                total == sum_exp(x@, i as nat),
                forall|k: int| 0 <= k < i ==> #[trigger] exps@[k] == x@[k].spec_exp(),
            decreases x@.len() - i,
        {
            let e = x[i].exp();
            total = total.plus(e);
            exps.push(e);
            i = i + 1;
        }
        let mut r: Vec<N> = Vec::new();
        let mut j: usize = 0;
        while j < exps.len()
            invariant
                j <= exps@.len(),
                exps@.len() == x@.len(),
                total == sum_exp(x@, x@.len()),
                forall|k: int| 0 <= k < exps@.len() ==> #[trigger] exps@[k] == x@[k].spec_exp(),
                r@.len() == j,
                forall|k: int| 0 <= k < j ==> #[trigger] r@[k] == x@[k].spec_exp().spec_divide(total),
            decreases exps@.len() - j,
        {
            r.push(exps[j].divide(total));
            j = j + 1;
        }
        assert(r@ =~= calc_spec(Activation::<N>::SoftMax, x@));
        r
    }

    /// The transform applied to a row of pre-activation values.
    pub fn calc(&self, x: Vec<N>) -> (r: Vec<N>)
        ensures
            r@ == calc_spec(*self, x@),
    {
        if let Activation::Identity = self {
            assert(x@ =~= calc_spec(*self, x@));
            return x;
        }
        if let Activation::SoftMax = self {
            return Self::soft_max(&x);
        }
        let mut r: Vec<N> = Vec::new();
        let mut i: usize = 0;
        while i < x.len()
            invariant
                !(*self is SoftMax),
                i <= x@.len(),
                r@.len() == i,
                forall|k: int| 0 <= k < i ==> #[trigger] r@[k] == value_spec(*self, x@[k]),
            decreases x@.len() - i,
        {
            r.push(self.calc_value(x[i]));
            i = i + 1;
        }
        assert(r@ =~= calc_spec(*self, x@));
        r
    }

    /// The local gradient of a row, taken at the activated values.
    pub fn derivative(&self, x: Vec<N>) -> (r: Vec<N>)
        ensures
            r@ == derivative_spec(*self, x@),
    {
        let mut r: Vec<N> = Vec::new();
        let mut i: usize = 0;
        while i < x.len()
            invariant
                i <= x@.len(),
                r@.len() == i,
                forall|k: int| 0 <= k < i ==> #[trigger] r@[k] == derivative_value_spec(*self, x@[k]),
            decreases x@.len() - i,
        {
            r.push(self.derivative_value(x[i]));
            i = i + 1;
        }
        assert(r@ =~= derivative_spec(*self, x@));
        r
    }

    /// `calc` or `derivative` applied to every row of `m`.
    fn rows_through(&self, m: &Matrix<N>, gradient: bool) -> (r: Matrix<N>)
        ensures
            r.has_shape(m.nrows(), m.ncols()),
            forall|i: int|
                0 <= i < m.nrows() ==> #[trigger] r.row_seq(i) == if gradient {
                    derivative_spec(*self, m.row_seq(i))
                } else {
                    calc_spec(*self, m.row_seq(i))
                },
    {
        let mut rows: Vec<Vec<N>> = Vec::new();
        let count = m.rows();
        let mut i: usize = 0;
        while i < count
            invariant
                count == m.nrows(),
                i <= count,
                rows@.len() == i,
                forall|a: int| 0 <= a < i ==> (#[trigger] rows@[a])@.len() == m.ncols(),
                forall|a: int|
                    0 <= a < i ==> (#[trigger] rows@[a])@ == if gradient {
                        derivative_spec(*self, m.row_seq(a))
                    } else {
                        calc_spec(*self, m.row_seq(a))
                    },
            decreases count - i,
        {
            let row = m.row(i);
            let out = if gradient {
                self.derivative(row)
            } else {
                self.calc(row)
            };
            rows.push(out);
            i = i + 1;
        }
        Matrix::from_rows(m.cols(), rows).unwrap()
    }

    /// `calc` applied to every row of `m`.
    pub fn apply(&self, m: &Matrix<N>) -> (r: Matrix<N>)
        ensures
            r.has_shape(m.nrows(), m.ncols()),
            forall|i: int| 0 <= i < m.nrows() ==> #[trigger] r.row_seq(i) == calc_spec(*self, m.row_seq(i)),
    {
        self.rows_through(m, false)
    }

    /// `derivative` applied to every row of `m`.
    pub fn gradient(&self, m: &Matrix<N>) -> (r: Matrix<N>)
        ensures
            r.has_shape(m.nrows(), m.ncols()),
            forall|i: int| 0 <= i < m.nrows() ==> #[trigger] r.row_seq(i) == derivative_spec(*self, m.row_seq(i)),
    {
        self.rows_through(m, true)
    }
}

} // verus!
