//! The coefficients that a verifier draws to combine constraints and
//! polynomials into one.

use vstd::prelude::*;

verus! {

/// The coefficients of the constraint composition polynomial: two for each
/// transition constraint and two for each boundary constraint, so that each
/// constraint `C_i` enters the sum as `C_i(x) * (alpha_i + beta_i * x^d_i)`.
#[derive(Debug, Clone)]
pub struct ConstraintCompositionCoefficients<E> {
    pub transition: Vec<(E, E)>,
    pub boundary: Vec<(E, E)>,
}

/// The coefficients of the DEEP composition polynomial.
#[derive(Debug)]
pub struct DeepCompositionCoefficients<E> {
    /// Three coefficients for each trace polynomial.
    pub trace: Vec<(E, E, E)>,
    /// One coefficient for each column of the constraint composition.
    pub constraints: Vec<E>,
    /// The two coefficients of the degree adjustment.
    pub degree: (E, E),
}

} // verus!
