use vstd::prelude::*;

verus! {

/// The non-linearity a layer applies to each weighted input. The set of
/// supported activations is closed, so a layer carries a tag rather than a
/// function value; evaluating the tagged function on scalars is left to the
/// driver that owns the arithmetic.
///
/// `SigmoidDerivative` evaluates to `sigmoid(x) * (1 - sigmoid(x))`; it is
/// provided for drivers that want the closed-form slope of `Sigmoid`.
#[derive(Clone, Copy, Debug, PartialEq, Eq, Structural)]
pub enum Activation {
    /// `1` where the weighted input is strictly positive, `0` otherwise.
    Step,
    /// `1 / (1 + e^-x)`.
    Sigmoid,
    /// `sigmoid(x) * (1 - sigmoid(x))`.
    SigmoidDerivative,
    /// `x * sigmoid(x)`.
    Silu,
}

} // verus!
