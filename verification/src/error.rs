//! The single, deliberately uninformative failure value.

use vstd::prelude::*;

verus! {

/// Decoding or verification failed.
///
/// The value carries nothing: a caller cannot tell a malformed input from a
/// well-formed one that is cryptographically wrong.
#[derive(Clone, Copy, Debug, PartialEq, Eq, Structural)]
pub struct Error;

impl Error {
    /// The failure value.
    pub fn new() -> (e: Error)
        ensures
            e == Error,
    {
        Error
    }
}

/// Any two failures are the same value, so the kind of failure cannot leak
/// through the error.
pub proof fn lemma_error_is_opaque(a: Error, b: Error)
    ensures
        a == b,
{
}

/// Two failed results of the same type are indistinguishable.
pub proof fn lemma_failures_are_equal<T>(a: Result<T, Error>, b: Result<T, Error>)
    requires
        a is Err,
        b is Err,
    ensures
        a == b,
{
    lemma_error_is_opaque(a->Err_0, b->Err_0);
    assert(a == Err::<T, Error>(a->Err_0));
    assert(b == Err::<T, Error>(b->Err_0));
}

} // verus!
