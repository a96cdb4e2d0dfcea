use vstd::prelude::*;

verus! {

/// Why a Gaussian density could not be built.
#[derive(Debug, Clone, Copy, PartialEq, Eq, Structural)]
pub enum GaussianError {
    /// The covariance matrix has no inverse.
    UninvertableCovarianceMatrix,
}

impl GaussianError {
    /// The human-readable description of the error.
    pub fn message(&self) -> (r: &'static str)
        ensures
            r@ == "Could not invert covariance matrix"@,
    {
        proof {
            reveal_strlit("Could not invert covariance matrix");
        }
        match self {
            GaussianError::UninvertableCovarianceMatrix => "Could not invert covariance matrix",
        }
    }
}

/// The outcome of the inversion step of the Gaussian builder, as the builder
/// reports it.
pub open spec fn inverse_outcome<M>(inverse: Option<M>) -> Result<M, GaussianError> {
    match inverse {
        Some(m) => Ok(m),
        None => Err(GaussianError::UninvertableCovarianceMatrix),
    }
}

/// Turns the result of inverting a covariance matrix into the builder's
/// result: the inverse when there is one, `UninvertableCovarianceMatrix`
/// when the matrix is singular. The inverse is computed once, here, and is
/// then shared by every evaluation of the density.
pub fn require_inverse<M>(inverse: Option<M>) -> (r: Result<M, GaussianError>)
    ensures
        r == inverse_outcome(inverse),
        r is Err <==> inverse is None,
{
    match inverse {
        Some(m) => Ok(m),
        None => Err(GaussianError::UninvertableCovarianceMatrix),
    }
}

} // verus!
